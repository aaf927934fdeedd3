//! Identifiers of the target language, and the names derived from a hint by a numeric
//! suffix.

use vstd::prelude::*;
use vstd::string::*;

verus! {

/// Whether an identifier may begin with `c`.
pub open spec fn is_ident_start(c: char) -> bool {
    ('a' <= c && c <= 'z') || ('A' <= c && c <= 'Z') || c == '_'
}

/// Whether an identifier may hold `c`.
pub open spec fn is_ident_char(c: char) -> bool {
    is_ident_start(c) || ('0' <= c && c <= '9')
}

/// Whether `s` is an identifier: a letter or an underscore, then letters, digits and
/// underscores; a lone underscore is none.
pub open spec fn is_identifier(s: Seq<char>) -> bool {
    &&& s.len() > 0
    &&& is_ident_start(s[0])
    &&& forall|i: int| 0 <= i < s.len() ==> is_ident_char(#[trigger] s[i])
    &&& !(s.len() == 1 && s[0] == '_')
}

/// The decimal digit for `d`, which is below ten.
pub open spec fn digit(d: nat) -> char {
    if d == 0 {
        '0'
    } else if d == 1 {
        '1'
    } else if d == 2 {
        '2'
    } else if d == 3 {
        '3'
    } else if d == 4 {
        '4'
    } else if d == 5 {
        '5'
    } else if d == 6 {
        '6'
    } else if d == 7 {
        '7'
    } else if d == 8 {
        '8'
    } else {
        '9'
    }
}

/// `n` in decimal notation, without leading zeros.
pub open spec fn decimal(n: nat) -> Seq<char>
    decreases n,
{
    if n < 10 {
        seq![digit(n)]
    } else {
        decimal(n / 10).push(digit(n % 10))
    }
}

/// Candidate `k` for a hint: the hint itself, then `hint_1`, `hint_2` and so on.
pub open spec fn suffixed(hint: Seq<char>, k: nat) -> Seq<char> {
    if k == 0 {
        hint
    } else {
        hint + seq!['_'] + decimal(k)
    }
}

/// A decimal rendering is not empty and holds digits only.
pub proof fn lemma_decimal_digits(n: nat)
    ensures
        decimal(n).len() >= 1,
        forall|i: int| 0 <= i < decimal(n).len() ==> '0' <= #[trigger] decimal(n)[i] <= '9',
    decreases n,
{
    if n >= 10 {
        lemma_decimal_digits(n / 10);
    }
}

/// Two numbers with one decimal rendering are one number.
pub proof fn lemma_decimal_injective(a: nat, b: nat)
    requires
        decimal(a) == decimal(b),
    ensures
        a == b,
    decreases a,
{
    lemma_decimal_digits(a / 10);
    lemma_decimal_digits(b / 10);
    if a < 10 && b < 10 {
        assert(decimal(a)[0] == digit(a));
        assert(decimal(b)[0] == digit(b));
    } else if a >= 10 && b >= 10 {
        let da = decimal(a / 10);
        let db = decimal(b / 10);
        assert(decimal(a).last() == digit(a % 10));
        assert(decimal(b).last() == digit(b % 10));
        assert(da =~= decimal(a).drop_last());
        assert(db =~= decimal(b).drop_last());
        lemma_decimal_injective(a / 10, b / 10);
        assert(a % 10 == b % 10);
    } else {
        assert(decimal(a).len() == decimal(b).len());
        if a < 10 {
            assert(decimal(b).len() == decimal(b / 10).len() + 1);
        } else {
            assert(decimal(a).len() == decimal(a / 10).len() + 1);
        }
    }
}

/// Two candidates for one hint that are equal have one number.
pub proof fn lemma_suffixed_injective(hint: Seq<char>, j: nat, k: nat)
    requires
        suffixed(hint, j) == suffixed(hint, k),
    ensures
        j == k,
{
    lemma_decimal_digits(j);
    lemma_decimal_digits(k);
    if j != 0 && k != 0 {
        let a = suffixed(hint, j);
        let b = suffixed(hint, k);
        let from = hint.len() + 1;
        assert(decimal(j) =~= a.subrange(from as int, a.len() as int));
        assert(decimal(k) =~= b.subrange(from as int, b.len() as int));
        lemma_decimal_injective(j, k);
    } else if j != 0 || k != 0 {
        assert(suffixed(hint, j).len() == suffixed(hint, k).len());
    }
}

/// Every candidate for a hint that is an identifier is an identifier.
pub proof fn lemma_suffixed_identifier(hint: Seq<char>, k: nat)
    requires
        is_identifier(hint),
    ensures
        is_identifier(suffixed(hint, k)),
{
    lemma_decimal_digits(k);
    if k != 0 {
        let s = suffixed(hint, k);
        assert forall|i: int| 0 <= i < s.len() implies is_ident_char(#[trigger] s[i]) by {
            if i < hint.len() {
                assert(s[i] == hint[i]);
            } else if i == hint.len() {
                assert(s[i] == '_');
            } else {
                assert(s[i] == decimal(k)[i - hint.len() - 1]);
            }
        }
        assert(s[0] == hint[0]);
    }
}

/// The text of the digit `d`.
fn digit_str(d: usize) -> (r: &'static str)
    requires
        d < 10,
    ensures
        r@ == seq![digit(d as nat)],
{
    proof {
        reveal_strlit("0");
        reveal_strlit("1");
        reveal_strlit("2");
        reveal_strlit("3");
        reveal_strlit("4");
        reveal_strlit("5");
        reveal_strlit("6");
        reveal_strlit("7");
        reveal_strlit("8");
        reveal_strlit("9");
    }
    let r = if d == 0 {
        "0"
    } else if d == 1 {
        "1"
    } else if d == 2 {
        "2"
    } else if d == 3 {
        "3"
    } else if d == 4 {
        "4"
    } else if d == 5 {
        "5"
    } else if d == 6 {
        "6"
    } else if d == 7 {
        "7"
    } else if d == 8 {
        "8"
    } else {
        "9"
    };
    assert(r@ =~= seq![digit(d as nat)]);
    r
}

/// `n` in decimal notation.
pub fn decimal_string(n: usize) -> (r: String)
    ensures
        r@ == decimal(n as nat),
    decreases n,
{
    if n < 10 {
        digit_str(n).to_owned()
    } else {
        let mut s = decimal_string(n / 10);
        let ghost before = s@;
        s.append(digit_str(n % 10));
        assert(s@ =~= before.push(digit((n % 10) as nat)));
        s
    }
}

/// Candidate `k` for `hint`: see [`suffixed`].
pub fn suffixed_name(hint: &str, k: usize) -> (r: String)
    ensures
        r@ == suffixed(hint@, k as nat),
{
    let mut s = hint.to_owned();
    if k != 0 {
        proof {
            reveal_strlit("_");
        }
        s.append("_");
        let digits = decimal_string(k);
        s.append(digits.as_str());
        assert("_"@ =~= seq!['_']);
        assert(s@ =~= hint@ + seq!['_'] + decimal(k as nat));
    }
    s
}

/// Whether `s` is an identifier of the target language.
pub fn is_identifier_str(s: &str) -> (r: bool)
    ensures
        r == is_identifier(s@),
{
    if !s.is_ascii() {
        proof {
            if is_identifier(s@) {
                assert forall|i: int| 0 <= i < s@.len() implies '\0' <= #[trigger] s@[i]
                    <= '\u{7f}' by {
                    assert(is_ident_char(s@[i]));
                }
            }
        }
        return false;
    }
    let n = s.unicode_len();
    if n == 0 {
        return false;
    }
    let first = s.get_ascii(0);
    if !is_start_byte(first) {
        return false;
    }
    if n == 1 && first == 95 {
        return false;
    }
    let mut i: usize = 1;
    while i < n
        invariant
            1 <= i <= n,
            n == s@.len(),
            s.is_ascii(),
            forall|j: int| 0 <= j < i ==> is_ident_char(#[trigger] s@[j]),
        decreases n - i,
    {
        let b = s.get_ascii(i);
        if !is_start_byte(b) && !(48 <= b && b <= 57) {
            assert(!is_ident_char(s@[i as int]));
            return false;
        }
        i = i + 1;
    }
    true
}

/// Whether `s` is an identifier of C in the basic character set: an identifier of the
/// target language, or the lone underscore.
pub open spec fn is_c_identifier(s: Seq<char>) -> bool {
    is_identifier(s) || s == seq!['_']
}

/// The hint for a C identifier that is no identifier of the target language.
pub open spec fn placeholder_hint() -> Seq<char> {
    "underscore"@
}

/// The hint from which the target name of a C identifier is chosen: the identifier
/// itself where the target language takes it, else a fixed hint that it takes.
pub open spec fn hint_of(c_name: Seq<char>) -> Seq<char> {
    if is_identifier(c_name) {
        c_name
    } else {
        placeholder_hint()
    }
}

/// The hint of every name is an identifier.
pub proof fn lemma_hint_identifier(c_name: Seq<char>)
    ensures
        is_identifier(hint_of(c_name)),
{
    reveal_strlit("underscore");
    let h = "underscore"@;
    assert(h.len() == 10);
    assert(h[0] == 'u' && h[1] == 'n' && h[2] == 'd' && h[3] == 'e' && h[4] == 'r' && h[5] == 's'
        && h[6] == 'c' && h[7] == 'o' && h[8] == 'r' && h[9] == 'e');
}

/// The keywords of the target language, strict and reserved: no name given out may
/// equal one of them.
pub open spec fn reserved_words() -> Seq<Seq<char>> {
    seq![
        "as"@,
        "break"@,
        "const"@,
        "continue"@,
        "crate"@,
        "else"@,
        "enum"@,
        "extern"@,
        "false"@,
        "fn"@,
        "for"@,
        "if"@,
        "impl"@,
        "in"@,
        "let"@,
        "loop"@,
        "match"@,
        "mod"@,
        "move"@,
        "mut"@,
        "pub"@,
        "ref"@,
        "return"@,
        "self"@,
        "Self"@,
        "static"@,
        "struct"@,
        "super"@,
        "trait"@,
        "true"@,
        "type"@,
        "unsafe"@,
        "use"@,
        "where"@,
        "while"@,
        "async"@,
        "await"@,
        "dyn"@,
        "abstract"@,
        "become"@,
        "box"@,
        "do"@,
        "final"@,
        "macro"@,
        "override"@,
        "priv"@,
        "typeof"@,
        "unsized"@,
        "virtual"@,
        "yield"@,
        "try"@,
    ]
}

/// The keywords of the target language: see [`reserved_words`].
pub fn keywords() -> (words: Vec<String>)
    ensures
        crate::target::strings_view(words@) == reserved_words(),
{
    let mut words: Vec<String> = Vec::new();
    words.push("as".to_owned());
    words.push("break".to_owned());
    words.push("const".to_owned());
    words.push("continue".to_owned());
    words.push("crate".to_owned());
    words.push("else".to_owned());
    words.push("enum".to_owned());
    words.push("extern".to_owned());
    words.push("false".to_owned());
    words.push("fn".to_owned());
    words.push("for".to_owned());
    words.push("if".to_owned());
    words.push("impl".to_owned());
    words.push("in".to_owned());
    words.push("let".to_owned());
    words.push("loop".to_owned());
    words.push("match".to_owned());
    words.push("mod".to_owned());
    words.push("move".to_owned());
    words.push("mut".to_owned());
    words.push("pub".to_owned());
    words.push("ref".to_owned());
    words.push("return".to_owned());
    words.push("self".to_owned());
    words.push("Self".to_owned());
    words.push("static".to_owned());
    words.push("struct".to_owned());
    words.push("super".to_owned());
    words.push("trait".to_owned());
    words.push("true".to_owned());
    words.push("type".to_owned());
    words.push("unsafe".to_owned());
    words.push("use".to_owned());
    words.push("where".to_owned());
    words.push("while".to_owned());
    words.push("async".to_owned());
    words.push("await".to_owned());
    words.push("dyn".to_owned());
    words.push("abstract".to_owned());
    words.push("become".to_owned());
    words.push("box".to_owned());
    words.push("do".to_owned());
    words.push("final".to_owned());
    words.push("macro".to_owned());
    words.push("override".to_owned());
    words.push("priv".to_owned());
    words.push("typeof".to_owned());
    words.push("unsized".to_owned());
    words.push("virtual".to_owned());
    words.push("yield".to_owned());
    words.push("try".to_owned());
    assert(crate::target::strings_view(words@) =~= reserved_words());
    words
}

/// Whether `s` is an identifier of C: see [`is_c_identifier`].
pub fn is_c_identifier_str(s: &str) -> (r: bool)
    ensures
        r == is_c_identifier(s@),
{
    proof {
        reveal_strlit("_");
        assert("_"@ =~= seq!['_']);
    }
    is_identifier_str(s) || s.to_owned() == "_".to_owned()
}

/// The hint for the C identifier `c_name`: see [`hint_of`].
pub fn hint_for<'a>(c_name: &'a str) -> (h: &'a str)
    ensures
        h@ == hint_of(c_name@),
{
    if is_identifier_str(c_name) {
        c_name
    } else {
        "underscore"
    }
}

/// Whether the ASCII byte `b` is a letter or an underscore.
fn is_start_byte(b: u8) -> (r: bool)
    ensures
        r == ((97 <= b && b <= 122) || (65 <= b && b <= 90) || b == 95),
{
    (97 <= b && b <= 122) || (65 <= b && b <= 90) || b == 95
}

} // verus!
