//! Character-level text utilities: equality, ASCII case folding, trimming,
//! splitting, line iteration and substring search, each specified against the
//! `Seq<char>` view of the strings involved.

use vstd::prelude::*;

verus! {

/// ASCII case folding of one character: upper-case letters map to lower case,
/// everything else is unchanged.
pub open spec fn lower_char_spec(c: char) -> char {
    if 'A' <= c && c <= 'Z' {
        (((c as u8) + 32) as char)
    } else {
        c
    }
}

/// ASCII case folding of a character sequence.
pub open spec fn lower_spec(s: Seq<char>) -> Seq<char> {
    s.map_values(|c: char| lower_char_spec(c))
}

pub fn lower_char(c: char) -> (r: char)
    ensures
        r == lower_char_spec(c),
{
    if 'A' <= c && c <= 'Z' {
        ((c as u8) + 32) as char
    } else {
        c
    }
}

/// Relies on `String::push`: appends exactly the given character.
#[verifier::external_body]
fn push_char(s: &mut String, c: char)
    ensures
        final(s)@ == old(s)@.push(c),
{
    s.push(c);
}

/// ASCII lower-case copy of a string.
pub fn lower(s: &str) -> (r: String)
    ensures
        r@ == lower_spec(s@),
{
    let len = s.unicode_len();
    let mut out = String::new();
    let mut i: usize = 0;
    while i < len
        invariant
            len == s@.len(),
            i <= len,
            out@ == lower_spec(s@.take(i as int)),
        decreases len - i,
    {
        let c = lower_char(s.get_char(i));
        push_char(&mut out, c);
        proof {
            assert(lower_spec(s@.take(i + 1)) =~= lower_spec(s@.take(i as int)).push(
                lower_char_spec(s@[i as int]),
            ));
        }
        i += 1;
    }
    proof {
        assert(s@.take(len as int) =~= s@);
    }
    out
}

/// Character-wise equality of two string slices.
pub fn str_eq(a: &str, b: &str) -> (r: bool)
    ensures
        r == (a@ == b@),
{
    let alen = a.unicode_len();
    let blen = b.unicode_len();
    if alen != blen {
        return false;
    }
    let mut i: usize = 0;
    while i < alen
        invariant
            alen == a@.len(),
            blen == b@.len(),
            alen == blen,
            i <= alen,
            forall|j: int| 0 <= j < i ==> a@[j] == b@[j],
        decreases alen - i,
    {
        if a.get_char(i) != b.get_char(i) {
            return false;
        }
        i += 1;
    }
    proof {
        assert(a@ =~= b@);
    }
    true
}

/// Does case folding `a` yield exactly `b`?
pub fn lowered_eq(a: &str, b: &str) -> (r: bool)
    ensures
        r == (lower_spec(a@) == b@),
{
    let alen = a.unicode_len();
    let blen = b.unicode_len();
    if alen != blen {
        return false;
    }
    let mut i: usize = 0;
    while i < alen
        invariant
            alen == a@.len(),
            blen == b@.len(),
            alen == blen,
            i <= alen,
            forall|j: int| 0 <= j < i ==> lower_char_spec(a@[j]) == b@[j],
        decreases alen - i,
    {
        if lower_char(a.get_char(i)) != b.get_char(i) {
            return false;
        }
        i += 1;
    }
    proof {
        assert(lower_spec(a@) =~= b@);
    }
    true
}

/// Equality up to ASCII case.
pub fn eq_ignore_case(a: &str, b: &str) -> (r: bool)
    ensures
        r == (lower_spec(a@) == lower_spec(b@)),
{
    let alen = a.unicode_len();
    let blen = b.unicode_len();
    if alen != blen {
        proof {
            assert(lower_spec(a@).len() != lower_spec(b@).len());
        }
        return false;
    }
    let mut i: usize = 0;
    while i < alen
        invariant
            alen == a@.len(),
            blen == b@.len(),
            alen == blen,
            i <= alen,
            forall|j: int| 0 <= j < i ==> lower_char_spec(a@[j]) == lower_char_spec(b@[j]),
        decreases alen - i,
    {
        if lower_char(a.get_char(i)) != lower_char(b.get_char(i)) {
            proof {
                assert(lower_spec(a@)[i as int] != lower_spec(b@)[i as int]);
            }
            return false;
        }
        i += 1;
    }
    proof {
        assert(lower_spec(a@) =~= lower_spec(b@));
    }
    true
}

/// Does `s` end with the given suffix?
pub open spec fn ends_with_spec(s: Seq<char>, suffix: Seq<char>) -> bool {
    s.len() >= suffix.len() && s.subrange(s.len() - suffix.len(), s.len() as int) == suffix
}

pub fn ends_with_str(s: &str, suffix: &str) -> (r: bool)
    ensures
        r == ends_with_spec(s@, suffix@),
{
    let slen = s.unicode_len();
    let xlen = suffix.unicode_len();
    if xlen > slen {
        return false;
    }
    let tail = s.substring_char(slen - xlen, slen);
    str_eq(tail, suffix)
}

/// ASCII whitespace, as trimmed from the edges of a value.
pub open spec fn is_space_char(c: char) -> bool {
    c == ' ' || c == '\t' || c == '\r' || c == '\n'
}

fn is_space(c: char) -> (r: bool)
    ensures
        r == is_space_char(c),
{
    c == ' ' || c == '\t' || c == '\r' || c == '\n'
}

pub open spec fn trim_start_spec(s: Seq<char>) -> Seq<char>
    decreases s.len(),
{
    if s.len() > 0 && is_space_char(s[0]) {
        trim_start_spec(s.drop_first())
    } else {
        s
    }
}

pub open spec fn trim_end_spec(s: Seq<char>) -> Seq<char>
    decreases s.len(),
{
    if s.len() > 0 && is_space_char(s.last()) {
        trim_end_spec(s.drop_last())
    } else {
        s
    }
}

/// `s` with ASCII whitespace removed from both ends.
pub open spec fn trim_spec(s: Seq<char>) -> Seq<char> {
    trim_end_spec(trim_start_spec(s))
}

proof fn lemma_trim_start_skip(s: Seq<char>, k: int)
    requires
        0 <= k <= s.len(),
        forall|j: int| 0 <= j < k ==> is_space_char(s[j]),
        k == s.len() || !is_space_char(s[k]),
    ensures
        trim_start_spec(s) == s.skip(k),
    decreases k,
{
    if k == 0 {
        assert(s.skip(0) =~= s);
    } else {
        lemma_trim_start_skip(s.drop_first(), k - 1);
        assert(s.drop_first().skip(k - 1) =~= s.skip(k));
    }
}

proof fn lemma_trim_end_take(s: Seq<char>, b: int)
    requires
        0 <= b <= s.len(),
        forall|j: int| b <= j < s.len() ==> is_space_char(s[j]),
        b == 0 || !is_space_char(s[b - 1]),
    ensures
        trim_end_spec(s) == s.take(b),
    decreases s.len() - b,
{
    if b == s.len() {
        assert(s.take(b) =~= s);
    } else {
        lemma_trim_end_take(s.drop_last(), b);
        assert(s.drop_last().take(b) =~= s.take(b));
    }
}

/// `s` with ASCII whitespace removed from both ends.
pub fn trim_str<'a>(s: &'a str) -> (r: &'a str)
    ensures
        r@ == trim_spec(s@),
{
    let len = s.unicode_len();
    let mut a: usize = 0;
    while a < len && is_space(s.get_char(a))
        invariant
            len == s@.len(),
            a <= len,
            forall|j: int| 0 <= j < a ==> is_space_char(s@[j]),
        decreases len - a,
    {
        a += 1;
    }
    proof {
        lemma_trim_start_skip(s@, a as int);
    }
    if a == len {
        let r = s.substring_char(len, len);
        proof {
            assert(r@ =~= trim_spec(s@));
        }
        return r;
    }
    let mut b: usize = len;
    while b > a && is_space(s.get_char(b - 1))
        invariant
            len == s@.len(),
            a <= b <= len,
            !is_space_char(s@[a as int]),
            forall|j: int| b <= j < len ==> is_space_char(s@[j]),
        decreases b,
    {
        b -= 1;
    }
    proof {
        let t = s@.skip(a as int);
        assert(forall|j: int| b - a <= j < t.len() ==> is_space_char(#[trigger] t[j]));
        assert(!is_space_char(t[b - 1 - a]));
        lemma_trim_end_take(t, b - a);
        assert(t.take(b - a) =~= s@.subrange(a as int, b as int));
    }
    s.substring_char(a, b)
}

/// The fields of `s` split at every occurrence of `sep`; a split of the empty
/// sequence is one empty field, and `n` separators give `n + 1` fields.
pub open spec fn split_spec(s: Seq<char>, sep: char) -> Seq<Seq<char>>
    decreases s.len(),
{
    if s.len() == 0 {
        seq![Seq::<char>::empty()]
    } else if s[0] == sep {
        seq![Seq::<char>::empty()] + split_spec(s.drop_first(), sep)
    } else {
        let rest = split_spec(s.drop_first(), sep);
        seq![seq![s[0]] + rest[0]] + rest.skip(1)
    }
}

pub proof fn lemma_split_len(s: Seq<char>, sep: char)
    ensures
        split_spec(s, sep).len() >= 1,
    decreases s.len(),
{
    if s.len() > 0 {
        lemma_split_len(s.drop_first(), sep);
    }
}

proof fn lemma_split_no_sep(s: Seq<char>, sep: char)
    requires
        forall|j: int| 0 <= j < s.len() ==> s[j] != sep,
    ensures
        split_spec(s, sep) == seq![s],
    decreases s.len(),
{
    if s.len() == 0 {
        assert(s =~= Seq::<char>::empty());
        assert(split_spec(s, sep) =~~= seq![s]);
    } else {
        lemma_split_no_sep(s.drop_first(), sep);
        lemma_split_len(s.drop_first(), sep);
        assert(seq![s[0]] + s.drop_first() =~= s);
        assert(split_spec(s, sep) =~~= seq![s]);
    }
}

proof fn lemma_split_first_sep(s: Seq<char>, sep: char, i: int)
    requires
        0 <= i < s.len(),
        s[i] == sep,
        forall|j: int| 0 <= j < i ==> s[j] != sep,
    ensures
        split_spec(s, sep) == seq![s.take(i)] + split_spec(s.skip(i + 1), sep),
    decreases i,
{
    if i == 0 {
        assert(s.take(0) =~= Seq::<char>::empty());
        assert(s.skip(1) =~= s.drop_first());
        assert(split_spec(s, sep) =~~= seq![s.take(0)] + split_spec(s.skip(1), sep));
    } else {
        lemma_split_first_sep(s.drop_first(), sep, i - 1);
        lemma_split_len(s.drop_first().skip(i), sep);
        assert(seq![s[0]] + s.drop_first().take(i - 1) =~= s.take(i));
        assert(s.drop_first().skip(i) =~= s.skip(i + 1));
        assert(split_spec(s, sep) =~~= seq![s.take(i)] + split_spec(s.skip(i + 1), sep));
    }
}

/// The fields of `s` split at every occurrence of `sep`.
pub fn split_char(s: &str, sep: char) -> (r: Vec<String>)
    ensures
        r@.map_values(|t: String| t@) == split_spec(s@, sep),
        r@.len() >= 1,
{
    let len = s.unicode_len();
    let mut fields: Vec<String> = Vec::new();
    let mut start: usize = 0;
    let mut i: usize = 0;
    proof {
        assert(s@.skip(0) =~= s@);
        assert(fields@.map_values(|t: String| t@) =~= Seq::<Seq<char>>::empty());
    }
    while i < len
        invariant
            len == s@.len(),
            start <= i <= len,
            forall|j: int| start <= j < i ==> s@[j] != sep,
            split_spec(s@, sep) == fields@.map_values(|t: String| t@) + split_spec(
                s@.skip(start as int),
                sep,
            ),
        decreases len - i,
    {
        if s.get_char(i) == sep {
            let field = s.substring_char(start, i);
            let owned = String::from_str(field);
            proof {
                let t = s@.skip(start as int);
                assert(forall|j: int| 0 <= j < i - start ==> #[trigger] t[j] != sep);
                lemma_split_first_sep(t, sep, i - start);
                assert(t.take(i - start) =~= s@.subrange(start as int, i as int));
                assert(t.skip(i - start + 1) =~= s@.skip(i + 1));
                assert(fields@.push(owned).map_values(|t: String| t@) =~= fields@.map_values(
                    |t: String| t@,
                ).push(owned@));
            }
            fields.push(owned);
            start = i + 1;
        }
        i += 1;
    }
    let field = s.substring_char(start, len);
    let owned = String::from_str(field);
    proof {
        let t = s@.skip(start as int);
        assert(forall|j: int| 0 <= j < t.len() ==> #[trigger] t[j] != sep);
        lemma_split_no_sep(t, sep);
        assert(t =~= s@.subrange(start as int, len as int));
        assert(fields@.push(owned).map_values(|t: String| t@) =~= fields@.map_values(
            |t: String| t@,
        ).push(owned@));
        lemma_split_len(s@, sep);
    }
    fields.push(owned);
    proof {
        assert(fields@.map_values(|t: String| t@) =~= split_spec(s@, sep));
    }
    fields
}

/// One line as reported by line iteration: a trailing carriage return is
/// stripped.
pub open spec fn strip_cr_spec(s: Seq<char>) -> Seq<char> {
    if s.len() > 0 && s.last() == '\r' {
        s.drop_last()
    } else {
        s
    }
}

/// The lines of `s`: fields split at newlines, without a final empty field,
/// each with a trailing carriage return stripped.
pub open spec fn lines_spec(s: Seq<char>) -> Seq<Seq<char>> {
    let parts = split_spec(s, '\n');
    let kept = if parts.len() > 0 && parts.last().len() == 0 {
        parts.drop_last()
    } else {
        parts
    };
    kept.map_values(|t: Seq<char>| strip_cr_spec(t))
}

fn strip_cr(s: String) -> (r: String)
    ensures
        r@ == strip_cr_spec(s@),
{
    let len = s.as_str().unicode_len();
    if len > 0 && s.as_str().get_char(len - 1) == '\r' {
        let head = s.as_str().substring_char(0, len - 1);
        proof {
            assert(s@.subrange(0, s@.len() - 1) =~= s@.drop_last());
        }
        String::from_str(head)
    } else {
        s
    }
}

/// The lines of `s`, as owned strings.
pub fn lines_of(s: &str) -> (r: Vec<String>)
    ensures
        r@.map_values(|t: String| t@) == lines_spec(s@),
{
    let mut parts = split_char(s, '\n');
    let ghost all = parts@.map_values(|t: String| t@);
    let last_len = parts[parts.len() - 1].as_str().unicode_len();
    if last_len == 0 {
        proof {
            assert(all.last().len() == 0);
            assert(parts@.drop_last().map_values(|t: String| t@) =~= all.drop_last());
        }
        parts.pop();
    }
    let ghost kept = parts@.map_values(|t: String| t@);
    let mut out: Vec<String> = Vec::new();
    let mut i: usize = 0;
    let n = parts.len();
    while i < n
        invariant
            n == parts@.len(),
            i <= n,
            parts@.map_values(|t: String| t@) == kept,
            out@.len() == i,
            forall|j: int| 0 <= j < i ==> out@.map_values(|t: String| t@)[j] == strip_cr_spec(
                kept[j],
            ),
        decreases n - i,
    {
        let line = strip_cr(parts[i].clone());
        out.push(line);
        i += 1;
    }
    proof {
        assert(out@.map_values(|t: String| t@) =~= kept.map_values(
            |t: Seq<char>| strip_cr_spec(t),
        ));
        assert(lines_spec(s@) == kept.map_values(|t: Seq<char>| strip_cr_spec(t)));
    }
    out
}

/// Does `needle` occur contiguously anywhere in `hay`?
pub open spec fn contains_spec(hay: Seq<char>, needle: Seq<char>) -> bool {
    exists|i: int|
        0 <= i && i + needle.len() <= hay.len() && #[trigger] hay.subrange(i, i + needle.len())
            == needle
}

pub fn contains_substr(hay: &str, needle: &str) -> (r: bool)
    ensures
        r == contains_spec(hay@, needle@),
{
    let hlen = hay.unicode_len();
    let nlen = needle.unicode_len();
    if nlen > hlen {
        return false;
    }
    if nlen == 0 {
        proof {
            assert(hay@.subrange(0, 0 + needle@.len() as int) =~= needle@);
            assert(contains_spec(hay@, needle@));
        }
        return true;
    }
    let mut i: usize = 0;
    while i <= hlen - nlen
        invariant
            hlen == hay@.len(),
            nlen == needle@.len(),
            0 < nlen <= hlen,
            i <= hlen - nlen + 1,
            forall|j: int|
                0 <= j < i ==> #[trigger] hay@.subrange(j, j + needle@.len()) != needle@,
        decreases hlen - i,
    {
        let sub = hay.substring_char(i, i + nlen);
        if str_eq(sub, needle) {
            return true;
        }
        i += 1;
    }
    false
}

/// Path canonicalization: backslash separators become forward slashes, so
/// either directory-delimiter style is accepted.
pub open spec fn sanitize_spec(s: Seq<char>) -> Seq<char> {
    s.map_values(|c: char| if c == '\\' { '/' } else { c })
}

pub fn sanitize_path(path: &str) -> (r: String)
    ensures
        r@ == sanitize_spec(path@),
{
    let len = path.unicode_len();
    let mut out = String::new();
    let mut i: usize = 0;
    while i < len
        invariant
            len == path@.len(),
            i <= len,
            out@ == sanitize_spec(path@.take(i as int)),
        decreases len - i,
    {
        let c = path.get_char(i);
        let mapped = if c == '\\' {
            '/'
        } else {
            c
        };
        push_char(&mut out, mapped);
        proof {
            assert(sanitize_spec(path@.take(i + 1)) =~= sanitize_spec(path@.take(i as int)).push(
                if path@[i as int] == '\\' {
                    '/'
                } else {
                    path@[i as int]
                },
            ));
        }
        i += 1;
    }
    proof {
        assert(path@.take(len as int) =~= path@);
    }
    out
}

/// The character sequences of a sequence of strings.
pub open spec fn names_of(v: Seq<String>) -> Seq<Seq<char>> {
    v.map_values(|t: String| t@)
}

/// Is the view of `s` among the views of the strings in `v`?
pub fn vec_contains_str(v: &Vec<String>, s: &str) -> (r: bool)
    ensures
        r == names_of(v@).contains(s@),
{
    let mut i: usize = 0;
    let n = v.len();
    while i < n
        invariant
            n == v@.len(),
            i <= n,
            forall|j: int| 0 <= j < i ==> (#[trigger] v@[j])@ != s@,
        decreases n - i,
    {
        if str_eq(v[i].as_str(), s) {
            proof {
                assert(names_of(v@)[i as int] == s@);
            }
            return true;
        }
        i += 1;
    }
    proof {
        let m = names_of(v@);
        assert(forall|j: int| 0 <= j < m.len() ==> #[trigger] m[j] != s@);
    }
    false
}

} // verus!
