//! Identifiers that a reader of the text can tell apart.
//!
//! The serializer writes a name and the text of a number as they are, so two
//! identifiers of different kinds can have one text: the name `1` and the
//! integer 1. Among identifiers that are lexically valid this does not
//! happen: each text belongs to one identifier.

use vstd::prelude::*;
use crate::ast::IdView;
use crate::decimal::{decimal, digit, digits};

verus! {

/// One of the ten digits.
pub open spec fn is_digit(c: char) -> bool {
    '0' <= c <= '9'
}

/// A letter of the Latin alphabet or an underscore.
pub open spec fn is_name_start(c: char) -> bool {
    ('a' <= c <= 'z') || ('A' <= c <= 'Z') || c == '_'
}

/// A letter, an underscore or a digit.
pub open spec fn is_name_char(c: char) -> bool {
    is_name_start(c) || is_digit(c)
}

/// A digit, a minus sign or a point.
pub open spec fn is_number_char(c: char) -> bool {
    is_digit(c) || c == '-' || c == '.'
}

impl IdView {
    /// The identifier is lexically valid: a name starts with a letter or an
    /// underscore and goes on with letters, digits and underscores; the text
    /// of a number with a fraction is made of digits, a sign and a point, and
    /// has a point; a string literal holds no double quote.
    pub open spec fn lexical(self) -> bool {
        match self {
            IdView::Name(s) => {
                &&& s.len() > 0
                &&& is_name_start(s[0])
                &&& forall|i: int| 0 <= i < s.len() ==> is_name_char(#[trigger] s[i])
            },
            IdView::Integer(_) => true,
            IdView::Float(s) => {
                &&& s.len() > 0
                &&& forall|i: int| 0 <= i < s.len() ==> is_number_char(#[trigger] s[i])
                &&& exists|i: int| 0 <= i < s.len() && #[trigger] s[i] == '.'
            },
            IdView::StringLiteral(s) => forall|i: int| 0 <= i < s.len() ==> #[trigger] s[i] != '"',
        }
    }
}

/// The digits of a number are digits, at least one.
pub proof fn lemma_digits_are_digits(n: nat)
    ensures
        digits(n).len() >= 1,
        forall|i: int| 0 <= i < digits(n).len() ==> is_digit(#[trigger] digits(n)[i]),
    decreases n,
{
    if n >= 10 {
        lemma_digits_are_digits(n / 10);
        let front = digits(n / 10);
        let all = digits(n);
        assert forall|i: int| 0 <= i < all.len() implies is_digit(#[trigger] all[i]) by {
            if i < front.len() {
                assert(all[i] == front[i]);
            }
        }
    }
}

/// Different numbers have different digits.
pub proof fn lemma_digits_are_injective(a: nat, b: nat)
    requires
        digits(a) == digits(b),
    ensures
        a == b,
    decreases a,
{
    lemma_digits_are_digits(a / 10);
    lemma_digits_are_digits(b / 10);
    if a < 10 && b < 10 {
        assert(digits(a)[0] == digit(a as int));
        assert(digits(b)[0] == digit(b as int));
    } else if a >= 10 && b >= 10 {
        let fa = digits(a / 10);
        let fb = digits(b / 10);
        assert(fa =~= digits(a).drop_last());
        assert(fb =~= digits(b).drop_last());
        assert(digits(a).last() == digit((a % 10) as int));
        assert(digits(b).last() == digit((b % 10) as int));
        lemma_digits_are_injective(a / 10, b / 10);
    } else if a < 10 {
        assert(digits(a).len() == 1);
        assert(digits(b).len() == digits(b / 10).len() + 1);
    } else {
        assert(digits(b).len() == 1);
        assert(digits(a).len() == digits(a / 10).len() + 1);
    }
}

/// Different integers have different decimal texts.
pub proof fn lemma_decimal_is_injective(i: int, j: int)
    requires
        decimal(i) == decimal(j),
    ensures
        i == j,
{
    let a = if i < 0 { (-i) as nat } else { i as nat };
    let b = if j < 0 { (-j) as nat } else { j as nat };
    lemma_digits_are_digits(a);
    lemma_digits_are_digits(b);
    if i < 0 {
        assert(decimal(i)[0] == '-');
    } else {
        assert(decimal(i)[0] == digits(a)[0]);
    }
    if j < 0 {
        assert(decimal(j)[0] == '-');
    } else {
        assert(decimal(j)[0] == digits(b)[0]);
    }
    if i < 0 && j < 0 {
        assert(digits(a) =~= decimal(i).subrange(1, decimal(i).len() as int));
        assert(digits(b) =~= decimal(j).subrange(1, decimal(j).len() as int));
    }
    if (i < 0) == (j < 0) {
        lemma_digits_are_injective(a, b);
    }
}

/// The decimal text of an integer is made of digits and a sign, and has no
/// point.
proof fn lemma_decimal_chars(i: int)
    ensures
        decimal(i).len() >= 1,
        decimal(i)[0] == '-' || is_digit(decimal(i)[0]),
        forall|k: int| 0 <= k < decimal(i).len() ==> #[trigger] decimal(i)[k] != '.',
{
    let a = if i < 0 { (-i) as nat } else { i as nat };
    lemma_digits_are_digits(a);
    let text = decimal(i);
    assert forall|k: int| 0 <= k < text.len() implies #[trigger] text[k] != '.' by {
        if i < 0 {
            if k > 0 {
                assert(text[k] == digits(a)[k - 1]);
            }
        } else {
            assert(text[k] == digits(a)[k]);
        }
    }
}

/// Different lexically valid identifiers have different texts.
pub proof fn lemma_id_text_is_injective(a: IdView, b: IdView)
    requires
        a.lexical(),
        b.lexical(),
        a.text() == b.text(),
    ensures
        a == b,
{
    reveal_strlit("\"");
    match a {
        IdView::Integer(i) => {
            lemma_decimal_chars(i);
        },
        IdView::StringLiteral(s) => {
            assert(a.text()[0] == '"');
            assert(s =~= a.text().subrange(1, a.text().len() - 1));
        },
        IdView::Name(s) => {
            assert(a.text()[0] == s[0]);
        },
        IdView::Float(s) => {
            assert(a.text()[0] == s[0]);
        },
    }
    match b {
        IdView::Integer(j) => {
            lemma_decimal_chars(j);
        },
        IdView::StringLiteral(s) => {
            assert(b.text()[0] == '"');
            assert(s =~= b.text().subrange(1, b.text().len() - 1));
        },
        IdView::Name(s) => {
            assert(b.text()[0] == s[0]);
        },
        IdView::Float(s) => {
            assert(b.text()[0] == s[0]);
        },
    }
    match (a, b) {
        (IdView::Integer(i), IdView::Integer(j)) => {
            lemma_decimal_is_injective(i, j);
        },
        (IdView::Float(s), IdView::Integer(j)) => {
            let k = choose|k: int| 0 <= k < s.len() && #[trigger] s[k] == '.';
            assert(decimal(j)[k] != '.');
        },
        (IdView::Integer(i), IdView::Float(s)) => {
            let k = choose|k: int| 0 <= k < s.len() && #[trigger] s[k] == '.';
            assert(decimal(i)[k] != '.');
        },
        _ => {},
    }
}

} // verus!
