//! Identifier derivation: a pack's display name is reduced to a
//! filesystem-safe slug, and staging directories get a collision-avoiding
//! name from a timestamp.
use vstd::prelude::*;
use vstd::string::StringExecFns;

use crate::text::{chars_to_string, is_alnum, is_upper, lower_char, lower_char_exec, str_to_chars};
use crate::text::{u64_digit_vec, u64_digits};

verus! {

/// The raw slug before trimming: ASCII alphanumerics lowercased, every
/// other run of characters collapsed to a single `-`.
pub open spec fn slug_raw(s: Seq<char>) -> Seq<char>
    decreases s.len(),
{
    if s.len() == 0 {
        Seq::empty()
    } else {
        let pre = slug_raw(s.drop_last());
        let c = s.last();
        if is_alnum(c) {
            pre.push(lower_char(c))
        } else if pre.len() > 0 && pre.last() == '-' {
            pre
        } else {
            pre.push('-')
        }
    }
}

/// Leading separators removed.
pub open spec fn trim_leading(s: Seq<char>) -> Seq<char>
    decreases s.len(),
{
    if s.len() > 0 && s[0] == '-' {
        trim_leading(s.skip(1))
    } else {
        s
    }
}

/// Trailing separators removed.
pub open spec fn trim_trailing(s: Seq<char>) -> Seq<char>
    decreases s.len(),
{
    if s.len() > 0 && s.last() == '-' {
        trim_trailing(s.drop_last())
    } else {
        s
    }
}

/// The slug of a display name: collapse and lowercase, then trim `-` from
/// both ends.
pub open spec fn slug_spec(s: Seq<char>) -> Seq<char> {
    trim_trailing(trim_leading(slug_raw(s)))
}

/// A character a slug may contain.
pub open spec fn slug_char(c: char) -> bool {
    crate::text::is_lower(c) || crate::text::is_digit(c) || c == '-'
}

proof fn lemma_slug_raw_charset(s: Seq<char>)
    ensures
        forall|i: int| 0 <= i < slug_raw(s).len() ==> slug_char(#[trigger] slug_raw(s)[i]),
    decreases s.len(),
{
    if s.len() > 0 {
        lemma_slug_raw_charset(s.drop_last());
        let pre = slug_raw(s.drop_last());
        let c = s.last();
        if is_alnum(c) {
            assert(slug_char(lower_char(c)));
            assert(forall|i: int|
                0 <= i < slug_raw(s).len() ==> slug_raw(s)[i] == if i < pre.len() {
                    pre[i]
                } else {
                    lower_char(c)
                });
        }
    }
}

proof fn lemma_trim_leading_keeps(s: Seq<char>)
    requires
        forall|i: int| 0 <= i < s.len() ==> slug_char(#[trigger] s[i]),
    ensures
        forall|i: int| 0 <= i < trim_leading(s).len() ==> slug_char(#[trigger] trim_leading(s)[i]),
        trim_leading(s).len() > 0 ==> trim_leading(s)[0] != '-',
    decreases s.len(),
{
    if s.len() > 0 && s[0] == '-' {
        assert(forall|i: int| 0 <= i < s.skip(1).len() ==> slug_char(#[trigger] s.skip(1)[i]));
        lemma_trim_leading_keeps(s.skip(1));
    }
}

proof fn lemma_trim_trailing_keeps(s: Seq<char>)
    requires
        forall|i: int| 0 <= i < s.len() ==> slug_char(#[trigger] s[i]),
    ensures
        forall|i: int|
            0 <= i < trim_trailing(s).len() ==> slug_char(#[trigger] trim_trailing(s)[i]),
        trim_trailing(s).len() > 0 ==> trim_trailing(s).last() != '-',
        trim_trailing(s).len() > 0 ==> trim_trailing(s)[0] == s[0],
    decreases s.len(),
{
    if s.len() > 0 && s.last() == '-' {
        assert(forall|i: int|
            0 <= i < s.drop_last().len() ==> slug_char(#[trigger] s.drop_last()[i]));
        lemma_trim_trailing_keeps(s.drop_last());
    }
}

/// A derived identifier is URL- and filesystem-safe: every character is a
/// lowercase ASCII letter, a digit or `-`, and it neither begins nor ends
/// with `-`.
pub proof fn lemma_slug_safe(s: Seq<char>)
    ensures
        forall|i: int| 0 <= i < slug_spec(s).len() ==> slug_char(#[trigger] slug_spec(s)[i]),
        slug_spec(s).len() > 0 ==> slug_spec(s)[0] != '-' && slug_spec(s).last() != '-',
{
    lemma_slug_raw_charset(s);
    lemma_trim_leading_keeps(slug_raw(s));
    lemma_trim_trailing_keeps(trim_leading(slug_raw(s)));
}

/// No two adjacent separators.
pub open spec fn no_dash_run(t: Seq<char>) -> bool {
    forall|i: int|
        #![trigger t[i], t[i + 1]]
        0 <= i && i + 1 < t.len() ==> !(t[i] == '-' && t[i + 1] == '-')
}

proof fn lemma_slug_raw_no_run(s: Seq<char>)
    ensures
        no_dash_run(slug_raw(s)),
    decreases s.len(),
{
    if s.len() > 0 {
        lemma_slug_raw_no_run(s.drop_last());
        let pre = slug_raw(s.drop_last());
        let c = s.last();
        let t = slug_raw(s);
        if is_alnum(c) {
            assert(lower_char(c) != '-');
            assert forall|i: int| 0 <= i && i + 1 < t.len() implies !(#[trigger] t[i] == '-'
                && #[trigger] t[i + 1] == '-') by {
                if i + 1 < pre.len() {
                    assert(t[i] == pre[i] && t[i + 1] == pre[i + 1]);
                } else {
                    assert(t[i + 1] == lower_char(c));
                }
            }
        } else if pre.len() > 0 && pre.last() == '-' {
        } else {
            assert forall|i: int| 0 <= i && i + 1 < t.len() implies !(#[trigger] t[i] == '-'
                && #[trigger] t[i + 1] == '-') by {
                if i + 1 < pre.len() {
                    assert(t[i] == pre[i] && t[i + 1] == pre[i + 1]);
                } else {
                    assert(t[i] == pre.last());
                }
            }
        }
    }
}

proof fn lemma_trim_leading_no_run(s: Seq<char>)
    requires
        no_dash_run(s),
    ensures
        no_dash_run(trim_leading(s)),
    decreases s.len(),
{
    if s.len() > 0 && s[0] == '-' {
        assert forall|i: int| 0 <= i && i + 1 < s.skip(1).len() implies !(#[trigger] s.skip(1)[i]
            == '-' && #[trigger] s.skip(1)[i + 1] == '-') by {
            assert(s.skip(1)[i] == s[i + 1] && s.skip(1)[i + 1] == s[i + 2]);
        }
        lemma_trim_leading_no_run(s.skip(1));
    }
}

proof fn lemma_trim_trailing_no_run(s: Seq<char>)
    requires
        no_dash_run(s),
    ensures
        no_dash_run(trim_trailing(s)),
    decreases s.len(),
{
    if s.len() > 0 && s.last() == '-' {
        assert(forall|i: int|
            #![trigger s.drop_last()[i], s.drop_last()[i + 1]]
            0 <= i && i + 1 < s.drop_last().len() ==> !(s.drop_last()[i] == '-' && s.drop_last()[
                i + 1
            ] == '-'));
        lemma_trim_trailing_no_run(s.drop_last());
    }
}

/// A sequence that is already in slug shape (slug characters only, no
/// separator runs, no leading separator) collapses to itself.
proof fn lemma_slug_raw_fixed(t: Seq<char>)
    requires
        forall|i: int| 0 <= i < t.len() ==> slug_char(#[trigger] t[i]),
        no_dash_run(t),
        t.len() > 0 ==> t[0] != '-',
    ensures
        slug_raw(t) == t,
    decreases t.len(),
{
    if t.len() > 0 {
        let u = t.drop_last();
        assert(forall|i: int| 0 <= i < u.len() ==> slug_char(#[trigger] u[i]));
        assert forall|i: int| 0 <= i && i + 1 < u.len() implies !(#[trigger] u[i] == '-'
            && #[trigger] u[i + 1] == '-') by {
            assert(u[i] == t[i] && u[i + 1] == t[i + 1]);
        }
        lemma_slug_raw_fixed(u);
        let c = t.last();
        assert(slug_char(c));
        if c == '-' {
            // a separator is never first, so the previous char exists and
            // is not a separator
            assert(t[0] != '-');
            assert(t.len() >= 2);
            let j: int = t.len() - 2;
            assert(!(t[j] == '-' && t[j + 1] == '-'));
            assert(u.last() == t[j]);
            assert(!is_alnum(c));
            assert(slug_raw(t) =~= u.push('-'));
            assert(u.push('-') =~= t);
        } else {
            assert(is_alnum(c));
            assert(!crate::text::is_upper(c));
            assert(lower_char(c) == c);
            assert(slug_raw(t) =~= u.push(c));
            assert(u.push(c) =~= t);
        }
    }
}

/// Deriving an identifier is idempotent: the slug of a slug is itself.
pub proof fn lemma_slug_idempotent(s: Seq<char>)
    ensures
        slug_spec(slug_spec(s)) == slug_spec(s),
{
    let t = slug_spec(s);
    lemma_slug_safe(s);
    lemma_slug_raw_no_run(s);
    lemma_trim_leading_no_run(slug_raw(s));
    lemma_trim_trailing_no_run(trim_leading(slug_raw(s)));
    lemma_slug_raw_fixed(t);
    assert(trim_leading(t) == t);
    assert(trim_trailing(t) == t);
}

/// Derive the URL/filesystem-safe identifier for a pack name.
pub fn slugify(name: &str) -> (r: String)
    ensures
        r@ == slug_spec(name@),
{
    let chars = str_to_chars(name);
    let mut raw: Vec<char> = Vec::new();
    let mut i: usize = 0;
    while i < chars.len()
        invariant
            chars@ == name@,
            i <= chars@.len(),
            raw@ == slug_raw(name@.take(i as int)),
        decreases chars@.len() - i,
    {
        let c = chars[i];
        let u = c as u32;
        proof {
            assert(name@.take(i as int + 1).drop_last() =~= name@.take(i as int));
            assert(name@.take(i as int + 1).last() == name@[i as int]);
        }
        if (48 <= u && u <= 57) || (65 <= u && u <= 90) || (97 <= u && u <= 122) {
            raw.push(lower_char_exec(c));
        } else {
            let put_dash = if raw.len() == 0 {
                true
            } else {
                raw[raw.len() - 1] != '-'
            };
            if put_dash {
                raw.push('-');
            }
        }
        i = i + 1;
    }
    proof {
        assert(name@.take(name@.len() as int) =~= name@);
    }
    // trim leading separators
    proof {
        assert(raw@.skip(0) =~= raw@);
    }
    let mut start: usize = 0;
    while start < raw.len() && raw[start] == '-'
        invariant
            start <= raw@.len(),
            trim_leading(raw@) == trim_leading(raw@.skip(start as int)),
        decreases raw@.len() - start,
    {
        proof {
            assert(raw@.skip(start as int).skip(1) =~= raw@.skip(start as int + 1));
        }
        start = start + 1;
    }
    proof {
        assert(raw@.skip(start as int).take(raw@.len() - start as int) =~= raw@.skip(start as int));
    }
    // trim trailing separators
    let mut end: usize = raw.len();
    while end > start && raw[end - 1] == '-'
        invariant
            start <= end <= raw@.len(),
            trim_leading(raw@) == trim_leading(raw@.skip(start as int)),
            trim_trailing(trim_leading(raw@)) == trim_trailing(
                raw@.skip(start as int).take(end - start as int),
            ),
        decreases end,
    {
        proof {
            let cur = raw@.skip(start as int).take(end - start as int);
            assert(cur.last() == raw@[end - 1]);
            assert(cur.drop_last() =~= raw@.skip(start as int).take(end - 1 - start as int));
        }
        end = end - 1;
    }
    let ghost trimmed = raw@.skip(start as int).take(end - start as int);
    proof {
        if end > start {
            assert(trimmed.last() == raw@[end - 1]);
        }
        assert(trim_trailing(trimmed) == trimmed);
    }
    let mut out: Vec<char> = Vec::new();
    let mut k: usize = start;
    while k < end
        invariant
            start <= k <= end <= raw@.len(),
            out@ == raw@.skip(start as int).take(k - start as int),
        decreases end - k,
    {
        out.push(raw[k]);
        proof {
            assert(out@ =~= raw@.skip(start as int).take(k + 1 - start as int));
        }
        k = k + 1;
    }
    chars_to_string(&out)
}

/// The staging-directory name for one import attempt, distinguished by a
/// millisecond timestamp.
pub fn temp_dir_name(millis: u64) -> (r: String)
    ensures
        r@ == "tmp-"@ + u64_digits(millis as nat),
{
    let mut r = String::from_str("tmp-");
    let digits = u64_digit_vec(millis);
    let tail = chars_to_string(&digits);
    r.append(tail.as_str());
    r
}

} // verus!
