//! Path sanitization: an archive-entry path is confined to the extraction
//! root, or rejected. Parent-directory, absolute-root and drive-root
//! components are the classic traversal vectors and are rejected outright;
//! `.` and empty components are silently dropped.
use vstd::prelude::*;

use crate::errors::AppError;
use crate::text::{chars_to_string, is_lower, is_upper, str_to_chars};
use vstd::string::StringExecFns;

verus! {

/// Split on `/`, keeping empty segments: the tail of the decomposition of
/// `cur ++ s`, where `cur` is the partial segment read so far.
pub open spec fn split_segs(s: Seq<char>, cur: Seq<char>) -> Seq<Seq<char>>
    decreases s.len(),
{
    if s.len() == 0 {
        seq![cur]
    } else if s[0] == '/' {
        seq![cur] + split_segs(s.skip(1), Seq::empty())
    } else {
        split_segs(s.skip(1), cur.push(s[0]))
    }
}

/// The `/`-separated segments of a path, empty segments included.
pub open spec fn segments_of(s: Seq<char>) -> Seq<Seq<char>> {
    split_segs(s, Seq::empty())
}

/// A parent-directory segment: `..`.
pub open spec fn seg_parent(seg: Seq<char>) -> bool {
    seg =~= seq!['.', '.']
}

/// A drive-root segment: a letter followed by `:`, as at the start of a
/// Windows-style absolute path.
pub open spec fn seg_drive(seg: Seq<char>) -> bool {
    seg.len() >= 2 && seg[1] == ':' && (is_upper(seg[0]) || is_lower(seg[0]))
}

/// A traversal vector: the segment must make the whole path be rejected.
pub open spec fn seg_bad(seg: Seq<char>) -> bool {
    seg_parent(seg) || seg_drive(seg)
}

/// A segment that survives sanitization: `.` and empty segments are
/// dropped, everything else is passed through.
pub open spec fn seg_kept(seg: Seq<char>) -> bool {
    seg.len() > 0 && !(seg =~= seq!['.'])
}

/// An entry path is acceptable when it is not absolute and no segment is a
/// traversal vector.
pub open spec fn path_ok(s: Seq<char>) -> bool {
    &&& s.len() > 0 ==> s[0] != '/'
    &&& forall|i: int| 0 <= i < segments_of(s).len() ==> !seg_bad(#[trigger] segments_of(s)[i])
}

/// Segments joined back with a single `/` between them.
pub open spec fn join_slash(segs: Seq<Seq<char>>) -> Seq<char>
    decreases segs.len(),
{
    if segs.len() == 0 {
        Seq::empty()
    } else if segs.len() == 1 {
        segs[0]
    } else {
        segs[0] + seq!['/'] + join_slash(segs.skip(1))
    }
}

/// What sanitization produces: the kept segments of an acceptable path,
/// rejoined; `None` for a rejected path.
pub open spec fn sanitize_spec(s: Seq<char>) -> Option<Seq<char>> {
    if path_ok(s) {
        Some(join_slash(segments_of(s).filter(|seg: Seq<char>| seg_kept(seg))))
    } else {
        None
    }
}

proof fn lemma_join_push(segs: Seq<Seq<char>>, x: Seq<char>)
    ensures
        join_slash(segs.push(x)) == if segs.len() == 0 {
            x
        } else {
            join_slash(segs) + seq!['/'] + x
        },
    decreases segs.len(),
{
    if segs.len() == 0 {
        assert(segs.push(x)[0] =~= x);
        assert(join_slash(segs.push(x)) == segs.push(x)[0]);
    } else {
        assert(segs.push(x).skip(1) =~= segs.skip(1).push(x));
        lemma_join_push(segs.skip(1), x);
        if segs.len() == 1 {
            assert(join_slash(segs) == segs[0]);
            assert(segs.push(x)[0] == segs[0]);
        }
    }
}

/// Decompose a path into its `/`-separated segments.
fn split_path(chars: &Vec<char>) -> (r: Vec<Vec<char>>)
    ensures
        r.deep_view() == segments_of(chars@),
{
    let mut done: Vec<Vec<char>> = Vec::new();
    let mut cur: Vec<char> = Vec::new();
    let mut i: usize = 0;
    proof {
        assert(chars@.skip(0) =~= chars@);
        assert(done.deep_view() =~~= Seq::<Seq<char>>::empty());
        assert(segments_of(chars@) =~= done.deep_view() + split_segs(chars@.skip(0), cur@));
    }
    while i < chars.len()
        invariant
            i <= chars@.len(),
            segments_of(chars@) == done.deep_view() + split_segs(chars@.skip(i as int), cur@),
        decreases chars@.len() - i,
    {
        let c = chars[i];
        proof {
            assert(chars@.skip(i as int)[0] == chars@[i as int]);
            assert(chars@.skip(i as int).skip(1) =~= chars@.skip(i as int + 1));
        }
        if c == '/' {
            let ghost old_dv = done.deep_view();
            let ghost cur_view = cur@;
            done.push(cur);
            proof {
                assert(done.deep_view() =~~= old_dv.push(cur_view));
                assert(old_dv.push(cur_view) =~= old_dv + seq![cur_view]);
                assert((old_dv + seq![cur_view]) + split_segs(chars@.skip(i as int + 1), Seq::empty())
                    =~= old_dv + (seq![cur_view] + split_segs(chars@.skip(i as int + 1), Seq::empty())));
            }
            cur = Vec::new();
        } else {
            cur.push(c);
        }
        i = i + 1;
    }
    proof {
        assert(chars@.skip(chars@.len() as int) =~= Seq::<char>::empty());
    }
    let ghost old_dv = done.deep_view();
    let ghost cur_view = cur@;
    done.push(cur);
    proof {
        assert(done.deep_view() =~~= old_dv.push(cur_view));
        assert(old_dv.push(cur_view) =~= old_dv + seq![cur_view]);
    }
    done
}

/// Produce the confined relative path for an archive-entry path, or reject
/// it. The result never contains a `..`, drive or absolute component: every
/// write derived from it stays under the extraction root.
pub fn sanitize_archive_path(path: &str) -> (r: Result<String, AppError>)
    ensures
        match r {
            Ok(p) => sanitize_spec(path@) == Some(p@),
            Err(e) => sanitize_spec(path@) is None && e matches AppError::InvalidArchiveEntry(_),
        },
{
    let chars = str_to_chars(path);
    if chars.len() > 0 && chars[0] == '/' {
        return Err(AppError::InvalidArchiveEntry(invalid_path_message()));
    }
    let segs = split_path(&chars);
    let mut kept: Vec<Vec<char>> = Vec::new();
    let mut i: usize = 0;
    proof {
        assert(segs.deep_view().take(0) =~= Seq::<Seq<char>>::empty());
        assert(Seq::<Seq<char>>::empty().filter(|seg: Seq<char>| seg_kept(seg))
            =~= Seq::<Seq<char>>::empty()) by {
            reveal(Seq::filter);
        }
        assert(kept.deep_view() =~~= Seq::<Seq<char>>::empty());
    }
    while i < segs.len()
        invariant
            i <= segs@.len(),
            segs.deep_view() == segments_of(chars@),
            chars@ == path@,
            chars@.len() > 0 ==> chars@[0] != '/',
            forall|j: int| 0 <= j < i ==> !seg_bad(#[trigger] segs.deep_view()[j]),
            kept.deep_view() == segs.deep_view().take(i as int).filter(
                |seg: Seq<char>| seg_kept(seg),
            ),
        decreases segs@.len() - i,
    {
        let seg = &segs[i];
        let ghost seg_view = segs.deep_view()[i as int];
        proof {
            assert(seg@ == seg_view);
        }
        // reject traversal vectors
        let is_parent = seg.len() == 2 && seg[0] == '.' && seg[1] == '.';
        let mut is_drive = false;
        if seg.len() >= 2 && seg[1] == ':' {
            let u = seg[0] as u32;
            is_drive = (65 <= u && u <= 90) || (97 <= u && u <= 122);
        }
        proof {
            assert(is_parent == seg_parent(seg_view)) by {
                if seg_view.len() == 2 && seg_view[0] == '.' && seg_view[1] == '.' {
                    assert(seg_view =~= seq!['.', '.']);
                }
                if seg_parent(seg_view) {
                    assert(seg_view.len() == 2 && seg_view[0] == '.' && seg_view[1] == '.');
                }
            }
            assert(is_drive == seg_drive(seg_view));
        }
        if is_parent || is_drive {
            proof {
                assert(seg_bad(segments_of(path@)[i as int]));
                assert(!path_ok(path@));
            }
            return Err(AppError::InvalidArchiveEntry(invalid_path_message()));
        }
        // drop `.` and empty segments, keep the rest
        let keep = if seg.len() == 0 {
            false
        } else {
            !(seg.len() == 1 && seg[0] == '.')
        };
        proof {
            assert(keep == seg_kept(seg_view)) by {
                if seg_view.len() == 1 && seg_view[0] == '.' {
                    assert(seg_view =~= seq!['.']);
                }
                if seg_view.len() > 0 && seg_view =~= seq!['.'] {
                    assert(seg_view.len() == 1 && seg_view[0] == '.');
                }
            }
        }
        let ghost kept_dv = kept.deep_view();
        if keep {
            let copy = clone_seg(seg);
            kept.push(copy);
            proof {
                assert(kept.deep_view() =~~= kept_dv.push(seg_view));
            }
        }
        proof {
            let pred = |seg: Seq<char>| seg_kept(seg);
            let t1 = segs.deep_view().take(i as int + 1);
            assert(t1.drop_last() =~= segs.deep_view().take(i as int));
            assert(t1.last() == seg_view);
            reveal(Seq::filter);
            if keep {
                assert(kept.deep_view() =~~= t1.filter(pred));
            } else {
                assert(kept.deep_view() =~~= t1.filter(pred));
            }
        }
        i = i + 1;
    }
    proof {
        assert(segs.deep_view().take(segs@.len() as int) =~= segs.deep_view());
        assert(path_ok(path@));
    }
    // join the kept segments with single separators
    let mut out: Vec<char> = Vec::new();
    let mut k: usize = 0;
    proof {
        assert(kept.deep_view().take(0) =~= Seq::<Seq<char>>::empty());
    }
    while k < kept.len()
        invariant
            k <= kept@.len(),
            out@ == join_slash(kept.deep_view().take(k as int)),
        decreases kept@.len() - k,
    {
        if k > 0 {
            out.push('/');
        }
        let seg = &kept[k];
        let ghost mid = out@;
        let mut j: usize = 0;
        while j < seg.len()
            invariant
                j <= seg@.len(),
                out@ == mid + seg@.take(j as int),
            decreases seg@.len() - j,
        {
            out.push(seg[j]);
            proof {
                assert(mid + seg@.take(j as int + 1) =~= (mid + seg@.take(j as int)).push(
                    seg@[j as int],
                ));
            }
            j = j + 1;
        }
        proof {
            let dv = kept.deep_view();
            assert(seg@.take(seg@.len() as int) =~= seg@);
            assert(dv.take(k as int + 1) =~= dv.take(k as int).push(dv[k as int]));
            lemma_join_push(dv.take(k as int), dv[k as int]);
            if k == 0 {
                assert(out@ =~= join_slash(dv.take(k as int + 1)));
            } else {
                assert(out@ =~= join_slash(dv.take(k as int)) + seq!['/'] + dv[k as int]);
            }
        }
        k = k + 1;
    }
    proof {
        assert(kept.deep_view().take(kept@.len() as int) =~= kept.deep_view());
    }
    Ok(chars_to_string(&out))
}

/// Element-wise copy of one segment.
fn clone_seg(seg: &Vec<char>) -> (r: Vec<char>)
    ensures
        r@ == seg@,
{
    let mut r: Vec<char> = Vec::new();
    let mut j: usize = 0;
    while j < seg.len()
        invariant
            j <= seg@.len(),
            r@ == seg@.take(j as int),
        decreases seg@.len() - j,
    {
        r.push(seg[j]);
        proof {
            assert(r@ =~= seg@.take(j as int + 1));
        }
        j = j + 1;
    }
    proof {
        assert(seg@.take(seg@.len() as int) =~= seg@);
    }
    r
}

/// Message attached to a rejected entry path.
fn invalid_path_message() -> (r: String)
    ensures
        r@ == "path escapes the extraction root"@,
{
    String::from_str("path escapes the extraction root")
}

/// The directory part of a path: everything before the last `/`; the empty
/// sequence for a path without one.
pub open spec fn dir_prefix(s: Seq<char>) -> Seq<char>
    decreases s.len(),
{
    if s.len() == 0 {
        s
    } else if s.last() == '/' {
        s.drop_last()
    } else {
        dir_prefix(s.drop_last())
    }
}

/// The file-name part of a path: everything after the last `/` (the whole
/// path when there is none; empty for a path ending in `/`).
pub open spec fn base_name(s: Seq<char>) -> Seq<char>
    decreases s.len(),
{
    if s.len() == 0 {
        s
    } else if s.last() == '/' {
        Seq::empty()
    } else {
        base_name(s.drop_last()).push(s.last())
    }
}

/// The prefix before the last `.` of a name, or `None` when it has none.
pub open spec fn cut_at_last_dot(s: Seq<char>) -> Option<Seq<char>>
    decreases s.len(),
{
    if s.len() == 0 {
        None
    } else if s.last() == '.' {
        Some(s.drop_last())
    } else {
        cut_at_last_dot(s.drop_last())
    }
}

/// The stem of a file name: the part before its last `.`, except that a
/// name whose only `.` is its first char keeps the whole name.
pub open spec fn stem_of(s: Seq<char>) -> Seq<char> {
    match cut_at_last_dot(s) {
        Some(p) => if p.len() > 0 {
            p
        } else {
            s
        },
        None => s,
    }
}

/// The directory part of a path (see [`dir_prefix`]).
pub fn parent_of(p: &str) -> (r: String)
    ensures
        r@ == dir_prefix(p@),
{
    let mut v = str_to_chars(p);
    while v.len() > 0 && v[v.len() - 1] != '/'
        invariant
            dir_prefix(p@) == dir_prefix(v@),
        decreases v@.len(),
    {
        v.pop();
    }
    if v.len() > 0 {
        proof {
            assert(dir_prefix(v@) == v@.drop_last());
        }
        v.pop();
    }
    chars_to_string(&v)
}

/// The file-name part of a path (see [`base_name`]).
pub fn base_name_of(p: &str) -> (r: String)
    ensures
        r@ == base_name(p@),
{
    let chars = str_to_chars(p);
    let mut i: usize = chars.len();
    proof {
        assert(chars@.take(chars@.len() as int) =~= chars@);
        assert(base_name(p@) =~= base_name(p@.take(i as int)) + p@.skip(i as int));
    }
    while i > 0 && chars[i - 1] != '/'
        invariant
            i <= chars@.len(),
            chars@ == p@,
            base_name(p@) == base_name(p@.take(i as int)) + p@.skip(i as int),
        decreases i,
    {
        proof {
            let t = p@.take(i as int);
            assert(t.last() == p@[i - 1]);
            assert(t.drop_last() =~= p@.take(i - 1));
            assert(p@.skip(i - 1) =~= seq![p@[i - 1]] + p@.skip(i as int));
            assert(base_name(p@.take(i - 1)).push(p@[i - 1]) + p@.skip(i as int) =~= base_name(
                p@.take(i - 1),
            ) + p@.skip(i - 1));
        }
        i = i - 1;
    }
    proof {
        if i == 0 {
            assert(p@.take(0) =~= Seq::<char>::empty());
            assert(base_name(p@) =~= p@.skip(0));
        } else {
            assert(p@.take(i as int).last() == '/');
            assert(base_name(p@) =~= p@.skip(i as int));
        }
    }
    let mut out: Vec<char> = Vec::new();
    let mut k: usize = i;
    while k < chars.len()
        invariant
            i <= k <= chars@.len(),
            chars@ == p@,
            out@ == p@.skip(i as int).take(k - i as int),
        decreases chars@.len() - k,
    {
        out.push(chars[k]);
        proof {
            assert(out@ =~= p@.skip(i as int).take(k + 1 - i as int));
        }
        k = k + 1;
    }
    proof {
        assert(p@.skip(i as int).take(p@.len() - i as int) =~= p@.skip(i as int));
    }
    chars_to_string(&out)
}

/// The stem of a file name (see [`stem_of`]).
pub fn stem_of_name(name: &str) -> (r: String)
    ensures
        r@ == stem_of(name@),
{
    let chars = str_to_chars(name);
    let mut i: usize = chars.len();
    proof {
        assert(chars@.take(chars@.len() as int) =~= chars@);
    }
    while i > 0 && chars[i - 1] != '.'
        invariant
            i <= chars@.len(),
            chars@ == name@,
            cut_at_last_dot(name@) == cut_at_last_dot(name@.take(i as int)),
        decreases i,
    {
        proof {
            let t = name@.take(i as int);
            assert(t.last() == name@[i - 1]);
            assert(t.drop_last() =~= name@.take(i - 1));
        }
        i = i - 1;
    }
    if i <= 1 {
        proof {
            if i == 0 {
                assert(name@.take(0) =~= Seq::<char>::empty());
            } else {
                let t = name@.take(1);
                assert(t.last() == name@[0] && t.last() == '.');
                assert(t.drop_last() =~= Seq::<char>::empty());
            }
        }
        return name.to_owned();
    }
    proof {
        let t = name@.take(i as int);
        assert(t.last() == name@[i - 1] && t.last() == '.');
        assert(t.drop_last() =~= name@.take(i - 1));
        assert(stem_of(name@) == name@.take(i - 1));
    }
    let mut out: Vec<char> = Vec::new();
    let mut k: usize = 0;
    while k < i - 1
        invariant
            1 <= i <= chars@.len(),
            k <= i - 1,
            chars@ == name@,
            out@ == name@.take(k as int),
        decreases i - k,
    {
        out.push(chars[k]);
        proof {
            assert(out@ =~= name@.take(k as int + 1));
        }
        k = k + 1;
    }
    chars_to_string(&out)
}

/// `a` and `b` joined with a single separator.
pub fn path_join(a: &str, b: &str) -> (r: String)
    ensures
        r@ == a@ + "/"@ + b@,
{
    let mut r = a.to_owned();
    r.append("/");
    r.append(b);
    r
}

/// No `/` occurs in the segment.
pub open spec fn slash_free(seg: Seq<char>) -> bool {
    forall|i: int| 0 <= i < seg.len() ==> seg[i] != '/'
}

/// Splitting walks through a slash-free prefix, absorbing it into the
/// partial segment.
proof fn lemma_split_append(x: Seq<char>, s: Seq<char>, cur: Seq<char>)
    requires
        slash_free(x),
    ensures
        split_segs(x + s, cur) == split_segs(s, cur + x),
    decreases x.len(),
{
    if x.len() == 0 {
        assert(x + s =~= s);
        assert(cur + x =~= cur);
    } else {
        assert((x + s)[0] == x[0]);
        assert(x[0] != '/');
        assert((x + s).skip(1) =~= x.skip(1) + s);
        assert(slash_free(x.skip(1)));
        lemma_split_append(x.skip(1), s, cur.push(x[0]));
        assert(cur.push(x[0]) + x.skip(1) =~= cur + x);
    }
}

/// Every segment the splitter produces is slash-free.
proof fn lemma_split_elems_slash_free(s: Seq<char>, cur: Seq<char>)
    requires
        slash_free(cur),
    ensures
        forall|i: int|
            0 <= i < split_segs(s, cur).len() ==> slash_free(#[trigger] split_segs(s, cur)[i]),
    decreases s.len(),
{
    if s.len() == 0 {
        assert(split_segs(s, cur) =~= seq![cur]);
    } else if s[0] == '/' {
        lemma_split_elems_slash_free(s.skip(1), Seq::empty());
        assert forall|i: int| 0 <= i < split_segs(s, cur).len() implies slash_free(
            #[trigger] split_segs(s, cur)[i],
        ) by {
            if i == 0 {
                assert(split_segs(s, cur)[0] == cur);
            } else {
                assert(split_segs(s, cur)[i] == split_segs(s.skip(1), Seq::empty())[i - 1]);
            }
        }
    } else {
        assert(slash_free(cur.push(s[0])));
        lemma_split_elems_slash_free(s.skip(1), cur.push(s[0]));
        assert forall|i: int| 0 <= i < split_segs(s, cur).len() implies slash_free(
            #[trigger] split_segs(s, cur)[i],
        ) by {
            assert(split_segs(s, cur)[i] == split_segs(s.skip(1), cur.push(s[0]))[i]);
        }
    }
}

/// Joining nonempty slash-free segments and splitting again gives the
/// segments back.
proof fn lemma_segments_of_join(segs: Seq<Seq<char>>)
    requires
        segs.len() > 0,
        forall|i: int|
            0 <= i < segs.len() ==> slash_free(#[trigger] segs[i]) && segs[i].len() > 0,
    ensures
        segments_of(join_slash(segs)) == segs,
    decreases segs.len(),
{
    if segs.len() == 1 {
        lemma_split_append(segs[0], Seq::empty(), Seq::empty());
        assert(segs[0] + Seq::<char>::empty() =~= segs[0]);
        assert(Seq::<char>::empty() + segs[0] =~= segs[0]);
        assert(segments_of(join_slash(segs)) =~= seq![segs[0]]);
        assert(seq![segs[0]] =~= segs);
    } else {
        let rest = join_slash(segs.skip(1));
        lemma_split_append(segs[0], seq!['/'] + rest, Seq::empty());
        assert(segs[0] + (seq!['/'] + rest) =~= join_slash(segs));
        assert(Seq::<char>::empty() + segs[0] =~= segs[0]);
        assert((seq!['/'] + rest)[0] == '/');
        assert((seq!['/'] + rest).skip(1) =~= rest);
        assert(forall|i: int|
            0 <= i < segs.skip(1).len() ==> slash_free(#[trigger] segs.skip(1)[i]) && segs.skip(
                1,
            )[i].len() > 0);
        lemma_segments_of_join(segs.skip(1));
        assert(segments_of(join_slash(segs)) =~= seq![segs[0]] + segs.skip(1));
        assert(seq![segs[0]] + segs.skip(1) =~= segs);
    }
}

/// A property of all segments survives filtering.
proof fn lemma_filter_all(
    s: Seq<Seq<char>>,
    pred: spec_fn(Seq<char>) -> bool,
    prop: spec_fn(Seq<char>) -> bool,
)
    requires
        forall|i: int| 0 <= i < s.len() ==> prop(#[trigger] s[i]),
    ensures
        forall|i: int| 0 <= i < s.filter(pred).len() ==> prop(#[trigger] s.filter(pred)[i]),
    decreases s.len(),
{
    reveal(Seq::filter);
    if s.len() > 0 {
        assert(forall|i: int| 0 <= i < s.drop_last().len() ==> prop(#[trigger] s.drop_last()[i]));
        lemma_filter_all(s.drop_last(), pred, prop);
        let out = s.filter(pred);
        assert forall|i: int| 0 <= i < out.len() implies prop(out[i]) by {
            if pred(s.last()) && i == out.len() - 1 {
                assert(out[i] == s.last());
            } else {
                assert(out[i] == s.drop_last().filter(pred)[i]);
            }
        }
    }
}

/// Confinement: a path the sanitizer accepts is a chain of ordinary names —
/// it does not start at the root, and none of its segments is empty, `.`,
/// `..` or a drive root. A write under `root ++ "/" ++ p` therefore stays
/// inside the subtree of `root`.
pub proof fn lemma_sanitized_path_confined(s: Seq<char>, p: Seq<char>)
    requires
        sanitize_spec(s) == Some(p),
        p.len() > 0,
    ensures
        p[0] != '/',
        segments_of(p).len() > 0,
        forall|i: int|
            0 <= i < segments_of(p).len() ==> seg_kept(#[trigger] segments_of(p)[i]) && !seg_bad(
                segments_of(p)[i],
            ),
{
    broadcast use vstd::seq_lib::group_filter_ensures;

    let segs = segments_of(s);
    let pred = |seg: Seq<char>| seg_kept(seg);
    let kept = segs.filter(pred);
    assert(p == join_slash(kept));
    lemma_split_elems_slash_free(s, Seq::empty());
    lemma_filter_all(segs, pred, |seg: Seq<char>| slash_free(seg));
    lemma_filter_all(segs, pred, |seg: Seq<char>| !seg_bad(seg));
    assert(forall|i: int|
        0 <= i < kept.len() ==> slash_free(#[trigger] kept[i]) && !seg_bad(kept[i]) && seg_kept(
            kept[i],
        ));
    if kept.len() == 0 {
        assert(p =~= Seq::<char>::empty());
        assert(false);
    }
    lemma_segments_of_join(kept);
    if kept.len() == 1 {
        assert(p == kept[0]);
        assert(p[0] == kept[0][0]);
    } else {
        assert(p == kept[0] + seq!['/'] + join_slash(kept.skip(1)));
        assert(p[0] == kept[0][0]);
    }
    assert(kept[0][0] != '/');
}

/// No sanitized path ever begins at the root or names a parent directory:
/// every segment of a successful result is an ordinary name. This is the
/// confinement guarantee behind extraction.
pub proof fn lemma_sanitize_rejects_traversal(s: Seq<char>)
    requires
        exists|i: int|
            0 <= i < segments_of(s).len() && seg_parent(#[trigger] segments_of(s)[i]),
    ensures
        sanitize_spec(s) is None,
{
    let i = choose|i: int|
        0 <= i < segments_of(s).len() && seg_parent(#[trigger] segments_of(s)[i]);
    assert(seg_bad(segments_of(s)[i]));
    assert(!path_ok(s));
}

} // verus!
