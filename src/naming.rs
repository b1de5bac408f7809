//! Case conversions between upper snake case, Pascal case and lower snake case.
use vstd::prelude::*;

verus! {

/// `c` is an ASCII capital letter.
pub open spec fn is_capital(c: char) -> bool {
    'A' <= c && c <= 'Z'
}

/// `c` is an ASCII small letter.
pub open spec fn is_small(c: char) -> bool {
    'a' <= c && c <= 'z'
}

/// ASCII upper case of one character; other characters stay as they are.
pub open spec fn upper_char(c: char) -> char {
    if is_small(c) {
        ((c as u32) - 32) as char
    } else {
        c
    }
}

/// ASCII lower case of one character; other characters stay as they are.
pub open spec fn lower_char(c: char) -> char {
    if is_capital(c) {
        ((c as u32) + 32) as char
    } else {
        c
    }
}

/// What the character at `i` contributes to the Pascal-case form of `s`: nothing for a
/// separator, its upper case where it starts a segment, its lower case elsewhere.
pub open spec fn pascal_piece(s: Seq<char>, i: int) -> Seq<char> {
    if s[i] == '_' {
        seq![]
    } else if i == 0 || s[i - 1] == '_' {
        seq![upper_char(s[i])]
    } else {
        seq![lower_char(s[i])]
    }
}

/// The Pascal-case form of an upper-snake-case name: the segments between underscores,
/// each with its first character in upper case and the rest in lower case, joined.
pub open spec fn pascal_of(s: Seq<char>) -> Seq<char>
    decreases s.len(),
{
    if s.len() == 0 {
        seq![]
    } else {
        pascal_of(s.drop_last()) + pascal_piece(s, s.len() - 1)
    }
}

/// `s` with an underscore put before every ASCII capital letter.
pub open spec fn underscored(s: Seq<char>) -> Seq<char>
    decreases s.len(),
{
    if s.len() == 0 {
        seq![]
    } else if is_capital(s.last()) {
        underscored(s.drop_last()) + seq!['_', s.last()]
    } else {
        underscored(s.drop_last()) + seq![s.last()]
    }
}

/// Number of underscores at the start of `s`.
pub open spec fn leading_underscores(s: Seq<char>) -> nat
    decreases s.len(),
{
    if s.len() > 0 && s[0] == '_' {
        1 + leading_underscores(s.drop_first())
    } else {
        0
    }
}

/// `s` without the underscores at its start.
pub open spec fn trim_leading(s: Seq<char>) -> Seq<char> {
    s.skip(leading_underscores(s) as int)
}

/// ASCII upper case of every character.
pub open spec fn upper_all(s: Seq<char>) -> Seq<char> {
    s.map_values(|c: char| upper_char(c))
}

/// ASCII lower case of every character.
pub open spec fn lower_all(s: Seq<char>) -> Seq<char> {
    s.map_values(|c: char| lower_char(c))
}

/// The upper-snake-case form of a Pascal-case name.
pub open spec fn upper_snake_of(s: Seq<char>) -> Seq<char> {
    upper_all(trim_leading(underscored(s)))
}

/// The lower-snake-case form of a Pascal-case name.
pub open spec fn lower_snake_of(s: Seq<char>) -> Seq<char> {
    lower_all(trim_leading(underscored(s)))
}

fn to_upper(c: char) -> (r: char)
    ensures
        r == upper_char(c),
{
    if 'a' <= c && c <= 'z' {
        ((c as u8) - 32) as char
    } else {
        c
    }
}

fn to_lower(c: char) -> (r: char)
    ensures
        r == lower_char(c),
{
    if 'A' <= c && c <= 'Z' {
        ((c as u8) + 32) as char
    } else {
        c
    }
}

/// Relies on std's String::push: the character is appended.
#[verifier::external_body]
pub(crate) fn push_char(s: &mut String, c: char)
    ensures
        final(s)@ == old(s)@.push(c),
{
    s.push(c);
}

/// Converts an upper-snake-case name (`FOO_BAR`) to Pascal case (`FooBar`). Any string
/// is accepted; case changes apply to ASCII letters only.
pub fn upper_snake_case_to_pascal_case(src: &str) -> (r: String)
    ensures
        r@ == pascal_of(src@),
{
    let n = src.unicode_len();
    let mut out = String::new();
    let mut i: usize = 0;
    let mut prev_sep = true;
    while i < n
        invariant
            n == src@.len(),
            i <= n,
            out@ == pascal_of(src@.subrange(0, i as int)),
            prev_sep == (i == 0 || src@[i - 1] == '_'),
        decreases n - i,
    {
        let c = src.get_char(i);
        proof {
            let p = src@.subrange(0, i + 1);
            assert(p.drop_last() =~= src@.subrange(0, i as int));
            assert(pascal_piece(p, i as int) == pascal_piece(src@, i as int));
        }
        if c == '_' {
            prev_sep = true;
        } else if prev_sep {
            push_char(&mut out, to_upper(c));
            prev_sep = false;
        } else {
            push_char(&mut out, to_lower(c));
        }
        i = i + 1;
    }
    proof {
        assert(src@.subrange(0, n as int) =~= src@);
    }
    out
}

/// Relies on regex::Regex::new and Regex::replace_all: the pattern `([A-Z])` matches one
/// ASCII capital letter, and the replacement `_$0` writes an underscore followed by the
/// whole match; the text between matches is copied unchanged.
#[verifier::external_body]
fn insert_underscores(pattern: &str, replacement: &str, src: &str) -> (r: String)
    requires
        pattern@ == "([A-Z])"@,
        replacement@ == "_$0"@,
    ensures
        r@ == underscored(src@),
{
    regex::Regex::new(pattern).unwrap().replace_all(src, replacement).into_owned()
}

/// `s` without its leading underscores, each remaining character passed through the ASCII
/// upper case (`upper`) or lower case (`!upper`).
fn trim_and_case(s: &String, upper: bool) -> (r: String)
    ensures
        r@ == (if upper {
            upper_all(trim_leading(s@))
        } else {
            lower_all(trim_leading(s@))
        }),
{
    let n = s.as_str().unicode_len();
    let mut i: usize = 0;
    while i < n && s.as_str().get_char(i) == '_'
        invariant
            n == s@.len(),
            i <= n,
            forall|j: int| 0 <= j < i ==> s@[j] == '_',
        decreases n - i,
    {
        i = i + 1;
    }
    proof {
        lemma_leading_underscores(s@, i as int);
    }
    let start = i;
    let mut out = String::new();
    while i < n
        invariant
            n == s@.len(),
            start <= i <= n,
            start == leading_underscores(s@),
            out@ == (if upper {
                upper_all(s@.subrange(start as int, i as int))
            } else {
                lower_all(s@.subrange(start as int, i as int))
            }),
        decreases n - i,
    {
        let c = s.as_str().get_char(i);
        let d = if upper { to_upper(c) } else { to_lower(c) };
        push_char(&mut out, d);
        proof {
            let a = s@.subrange(start as int, i as int);
            let b = s@.subrange(start as int, i + 1);
            assert(b =~= a.push(c));
            if upper {
                assert(upper_all(b) =~= upper_all(a).push(d));
            } else {
                assert(lower_all(b) =~= lower_all(a).push(d));
            }
        }
        i = i + 1;
    }
    proof {
        assert(s@.subrange(start as int, n as int) =~= trim_leading(s@));
    }
    out
}

proof fn lemma_leading_underscores(s: Seq<char>, i: int)
    requires
        0 <= i <= s.len(),
        forall|j: int| 0 <= j < i ==> s[j] == '_',
        i == s.len() || s[i] != '_',
    ensures
        leading_underscores(s) == i,
    decreases i,
{
    if i > 0 {
        lemma_leading_underscores(s.drop_first(), i - 1);
    }
}

/// Converts a Pascal-case name (`FooBar`) to upper snake case (`FOO_BAR`): an underscore
/// goes before every capital letter, the underscores at the start are dropped, and the
/// whole is put in upper case. Any string is accepted.
pub fn pascal_case_to_upper_snake_case(src: &str) -> (r: String)
    ensures
        r@ == upper_snake_of(src@),
{
    let marked = insert_underscores("([A-Z])", "_$0", src);
    trim_and_case(&marked, true)
}

/// Converts a Pascal-case name (`FooBar`) to lower snake case (`foo_bar`), as
/// `pascal_case_to_upper_snake_case` does but with the result in lower case.
pub fn pascal_case_to_lower_snake_case(src: &str) -> (r: String)
    ensures
        r@ == lower_snake_of(src@),
{
    let marked = insert_underscores("([A-Z])", "_$0", src);
    trim_and_case(&marked, false)
}

/// `s` is an upper-snake-case name: one or more segments of ASCII capital letters, joined
/// by single underscores.
pub open spec fn is_upper_snake(s: Seq<char>) -> bool {
    &&& s.len() > 0
    &&& s[0] != '_'
    &&& s.last() != '_'
    &&& forall|i: int| 0 <= i < s.len() ==> is_capital(#[trigger] s[i]) || s[i] == '_'
    &&& forall|i: int| 0 < i < s.len() && #[trigger] s[i] == '_' ==> s[i - 1] != '_'
}

proof fn lemma_underscored_concat(a: Seq<char>, b: Seq<char>)
    ensures
        underscored(a + b) == underscored(a) + underscored(b),
    decreases b.len(),
{
    if b.len() == 0 {
        assert(a + b =~= a);
        assert(underscored(a) + underscored(b) =~= underscored(a));
    } else {
        lemma_underscored_concat(a, b.drop_last());
        assert((a + b).drop_last() =~= a + b.drop_last());
        assert((a + b).last() == b.last());
        if is_capital(b.last()) {
            assert(underscored(a + b) =~= underscored(a) + underscored(b));
        } else {
            assert(underscored(a + b) =~= underscored(a) + underscored(b));
        }
    }
}

proof fn lemma_underscored_single(c: char)
    ensures
        underscored(seq![c]) == (if is_capital(c) {
            seq!['_', c]
        } else {
            seq![c]
        }),
{
    assert(seq![c].drop_last() =~= seq![]);
    assert(underscored(seq![]) =~= seq![]);
    assert(seq![c].last() == c);
    if is_capital(c) {
        assert(underscored(seq![c]) =~= seq!['_', c]);
    } else {
        assert(underscored(seq![c]) =~= seq![c]);
    }
}

proof fn lemma_upper_all_concat(a: Seq<char>, b: Seq<char>)
    ensures
        upper_all(a + b) == upper_all(a) + upper_all(b),
{
    assert(upper_all(a + b) =~= upper_all(a) + upper_all(b));
}

proof fn lemma_capital_chars(c: char)
    requires
        is_capital(c),
    ensures
        upper_char(c) == c,
        !is_capital(lower_char(c)),
        upper_char(lower_char(c)) == c,
{
    let l = lower_char(c);
    assert(l as u32 == c as u32 + 32);
    assert(is_small(l));
    assert(upper_char(l) as u32 == c as u32);
}

/// `p` without a final underscore.
spec fn without_trailing_separator(p: Seq<char>) -> Seq<char> {
    if p.len() > 0 && p.last() == '_' {
        p.drop_last()
    } else {
        p
    }
}

proof fn lemma_round_trip_prefix(s: Seq<char>, k: int)
    requires
        is_upper_snake(s),
        1 <= k <= s.len(),
    ensures
        upper_all(underscored(pascal_of(s.subrange(0, k)))) == seq!['_'] + without_trailing_separator(
            s.subrange(0, k),
        ),
    decreases k,
{
    let p = s.subrange(0, k);
    let q = s.subrange(0, k - 1);
    let c = s[k - 1];
    assert(p.drop_last() =~= q);
    assert(pascal_piece(p, k - 1) == pascal_piece(s, k - 1));
    lemma_underscored_concat(pascal_of(q), pascal_piece(s, k - 1));
    lemma_upper_all_concat(underscored(pascal_of(q)), underscored(pascal_piece(s, k - 1)));
    if k == 1 {
        assert(is_capital(c));
        lemma_capital_chars(c);
        assert(pascal_of(q) =~= seq![]);
        assert(underscored(seq![]) =~= seq![]);
        assert(underscored(seq![c]) =~= seq!['_', c]) by {
            assert(seq![c].drop_last() =~= seq![]);
        }
        assert(upper_all(seq!['_', c]) =~= seq!['_', c]);
        assert(upper_all(seq![]) =~= seq![]);
        assert(seq!['_'] + without_trailing_separator(p) =~= seq!['_', c]);
    } else {
        lemma_round_trip_prefix(s, k - 1);
        if c == '_' {
            assert(s[k - 2] != '_');
            assert(underscored(seq![]) =~= seq![]);
            assert(upper_all(seq![]) =~= seq![]);
            assert(without_trailing_separator(p) =~= q);
            assert(without_trailing_separator(q) =~= q);
        } else {
            assert(is_capital(c));
            lemma_capital_chars(c);
            if s[k - 2] == '_' {
                lemma_underscored_single(c);
                assert(upper_all(seq!['_', c]) =~= seq!['_', c]);
                assert(without_trailing_separator(q) =~= s.subrange(0, k - 2));
                assert(seq!['_'] + without_trailing_separator(p) =~= seq!['_'] + s.subrange(
                    0,
                    k - 2,
                ) + seq!['_', c]);
            } else {
                let l = lower_char(c);
                lemma_underscored_single(l);
                assert(upper_all(seq![l]) =~= seq![c]);
                assert(without_trailing_separator(q) =~= q);
                assert(seq!['_'] + without_trailing_separator(p) =~= seq!['_'] + q + seq![c]);
            }
        }
    }
}

/// Converting an upper-snake-case name to Pascal case and back gives the name again.
pub proof fn lemma_pascal_round_trip(s: Seq<char>)
    requires
        is_upper_snake(s),
    ensures
        upper_snake_of(pascal_of(s)) == s,
{
    lemma_round_trip_prefix(s, s.len() as int);
    assert(s.subrange(0, s.len() as int) =~= s);
    let u = underscored(pascal_of(s));
    let t = seq!['_'] + s;
    assert(upper_all(u) == t);
    assert(u.len() == t.len());
    assert(u[0] == '_') by {
        assert(upper_all(u)[0] == '_');
        if u[0] != '_' {
            assert(upper_char(u[0]) == '_');
        }
    }
    assert(u[1] != '_') by {
        assert(upper_all(u)[1] == s[0]);
    }
    assert(leading_underscores(u.drop_first()) == 0);
    assert(leading_underscores(u) == 1);
    assert forall|i: int| 0 <= i < s.len() implies upper_all(trim_leading(u))[i] == s[i] by {
        assert(trim_leading(u)[i] == u[i + 1]);
        assert(upper_all(u)[i + 1] == t[i + 1]);
    }
    assert(upper_all(trim_leading(u)) =~= s);
}

/// `s` with every `.` replaced by `sep`.
pub open spec fn dots_replaced(s: Seq<char>, sep: Seq<char>) -> Seq<char>
    decreases s.len(),
{
    if s.len() == 0 {
        seq![]
    } else if s.last() == '.' {
        dots_replaced(s.drop_last(), sep) + sep
    } else {
        dots_replaced(s.drop_last(), sep).push(s.last())
    }
}

fn replace_dots(s: &str, sep: &str) -> (r: String)
    ensures
        r@ == dots_replaced(s@, sep@),
{
    let n = s.unicode_len();
    let mut out = String::new();
    let mut i: usize = 0;
    while i < n
        invariant
            n == s@.len(),
            i <= n,
            out@ == dots_replaced(s@.subrange(0, i as int), sep@),
        decreases n - i,
    {
        let c = s.get_char(i);
        proof {
            assert(s@.subrange(0, i + 1).drop_last() =~= s@.subrange(0, i as int));
        }
        if c == '.' {
            out.append(sep);
        } else {
            push_char(&mut out, c);
        }
        i = i + 1;
    }
    assert(s@.subrange(0, n as int) =~= s@);
    out
}

/// The C++ namespace of a package: `a.b` becomes `a::b`.
pub fn package_to_namespace(pkg: &str) -> (r: String)
    ensures
        r@ == dots_replaced(pkg@, "::"@),
{
    replace_dots(pkg, "::")
}

/// The nanopb name prefix of a package: `a.b` becomes `a_b`.
pub fn package_to_nanopb_prefix(pkg: &str) -> (r: String)
    ensures
        r@ == dots_replaced(pkg@, "_"@),
{
    replace_dots(pkg, "_")
}

} // verus!
