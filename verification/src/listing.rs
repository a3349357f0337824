//! Pack listing: the immediate subdirectories of the permanent store that
//! hold a root-level manifest become pack records, ordered by their name,
//! case-insensitively. The driver reads the directory and the manifest
//! texts; this module turns them into records.
use vstd::prelude::*;
use vstd::seq_lib::group_seq_properties;

use crate::errors::AppError;
use crate::manifest::{
    json_parses, manifest_author, manifest_description, manifest_name, manifest_version,
    parse_manifest,
};
use crate::models::SoundPack;
use crate::text::{ci_le, lemma_lex_total, lemma_lex_trans, lex_le, lower_chars};
use vstd::string::StringExecFns;

verus! {

/// The fields of a pack record, as mathematical values: identifier, name,
/// version, author, description.
pub open spec fn pack_view(p: SoundPack) -> (
    Seq<char>,
    Seq<char>,
    Seq<char>,
    Option<Seq<char>>,
    Option<Seq<char>>,
) {
    (p.id@, p.name@, p.version@, opt_view(p.author), opt_view(p.description))
}

/// The text of an optional string.
pub open spec fn opt_view(o: Option<String>) -> Option<Seq<char>> {
    match o {
        Some(s) => Some(s@),
        None => None,
    }
}

/// One listed directory: its name, and its manifest text where it has one.
pub open spec fn dir_view(e: (String, Option<String>)) -> (Seq<char>, Option<Seq<char>>) {
    (e.0@, opt_view(e.1))
}

/// All listed directories.
pub open spec fn dirs_view(dirs: Seq<(String, Option<String>)>) -> Seq<
    (Seq<char>, Option<Seq<char>>),
> {
    dirs.map_values(|e: (String, Option<String>)| dir_view(e))
}

/// All pack records.
pub open spec fn packs_view(packs: Seq<SoundPack>) -> Seq<
    (Seq<char>, Seq<char>, Seq<char>, Option<Seq<char>>, Option<Seq<char>>),
> {
    packs.map_values(|p: SoundPack| pack_view(p))
}

/// The record a listed directory yields: the directory name is the
/// identifier and the name fallback; the manifest fields get their
/// defaults.
pub open spec fn pack_of_dir(id: Seq<char>, text: Seq<char>) -> (
    Seq<char>,
    Seq<char>,
    Seq<char>,
    Option<Seq<char>>,
    Option<Seq<char>>,
) {
    (
        id,
        manifest_name(text, id),
        manifest_version(text),
        manifest_author(text),
        manifest_description(text),
    )
}

/// Every manifest present among the listed directories parses.
pub open spec fn listing_ok(dirs: Seq<(Seq<char>, Option<Seq<char>>)>) -> bool {
    forall|i: int|
        0 <= i < dirs.len() ==> (#[trigger] dirs[i].1 matches Some(t) ==> json_parses(t))
}

/// The records of the listing, in directory order: directories without a
/// manifest are silently skipped.
pub open spec fn built_packs(dirs: Seq<(Seq<char>, Option<Seq<char>>)>) -> Seq<
    (Seq<char>, Seq<char>, Seq<char>, Option<Seq<char>>, Option<Seq<char>>),
>
    decreases dirs.len(),
{
    if dirs.len() == 0 {
        Seq::empty()
    } else {
        let pre = built_packs(dirs.drop_last());
        match dirs.last().1 {
            None => pre,
            Some(t) => pre.push(pack_of_dir(dirs.last().0, t)),
        }
    }
}

/// Records in nondecreasing case-insensitive name order.
pub open spec fn sorted_ci(packs: Seq<SoundPack>) -> bool {
    forall|i: int, j: int|
        0 <= i < j < packs.len() ==> lex_le(
            lower_chars(#[trigger] packs[i].name@),
            lower_chars(#[trigger] packs[j].name@),
        )
}

/// Build the sorted pack list from the listed directories. Fails exactly
/// when some present manifest text is not well-formed JSON; otherwise the
/// result holds exactly the records of the manifest-bearing directories,
/// ordered by case-insensitive name.
pub fn build_pack_list(dirs: &Vec<(String, Option<String>)>) -> (r: Result<Vec<SoundPack>, AppError>)
    ensures
        match r {
            Ok(packs) => {
                &&& listing_ok(dirs_view(dirs@))
                &&& packs_view(packs@).to_multiset() == built_packs(dirs_view(dirs@)).to_multiset()
                &&& sorted_ci(packs@)
            },
            Err(e) => !listing_ok(dirs_view(dirs@)) && e matches AppError::Json(_),
        },
{
    broadcast use group_seq_properties;

    let mut built: Vec<SoundPack> = Vec::new();
    let mut i: usize = 0;
    proof {
        assert(dirs_view(dirs@.take(0)) =~= Seq::<(Seq<char>, Option<Seq<char>>)>::empty());
        assert(packs_view(built@) =~= Seq::<
            (Seq<char>, Seq<char>, Seq<char>, Option<Seq<char>>, Option<Seq<char>>),
        >::empty());
    }
    while i < dirs.len()
        invariant
            i <= dirs@.len(),
            listing_ok(dirs_view(dirs@.take(i as int))),
            packs_view(built@) == built_packs(dirs_view(dirs@.take(i as int))),
        decreases dirs@.len() - i,
    {
        proof {
            assert(dirs_view(dirs@.take(i as int + 1)).drop_last() =~= dirs_view(
                dirs@.take(i as int),
            ));
            assert(dirs_view(dirs@.take(i as int + 1)).last() == dir_view(dirs@[i as int]));
        }
        let entry = &dirs[i];
        match &entry.1 {
            None => {},
            Some(text) => {
                match parse_manifest(text.as_str(), entry.0.as_str()) {
                    Err(e) => {
                        proof {
                            assert(dirs_view(dirs@)[i as int].1 == Some(text@));
                            assert(!listing_ok(dirs_view(dirs@)));
                        }
                        return Err(e);
                    },
                    Ok(m) => {
                        let ghost before = packs_view(built@);
                        built.push(
                            SoundPack {
                                id: entry.0.clone(),
                                name: m.name,
                                version: m.version,
                                author: m.author,
                                description: m.description,
                            },
                        );
                        proof {
                            assert(packs_view(built@) =~= before.push(pack_view(built@.last())));
                        }
                    },
                }
            },
        }
        proof {
            assert forall|j: int| 0 <= j < i + 1 implies (
            #[trigger] dirs_view(dirs@.take(i as int + 1))[j].1 matches Some(t) ==> json_parses(
                t,
            )) by {
                assert(dirs_view(dirs@.take(i as int + 1))[j] == dir_view(dirs@[j]));
                if j < i {
                    assert(dirs_view(dirs@.take(i as int))[j] == dir_view(dirs@[j]));
                } else {
                    assert(dir_view(dirs@[i as int]).1 matches Some(t) ==> json_parses(t));
                }
            }
        }
        i = i + 1;
    }
    proof {
        assert(dirs@.take(dirs@.len() as int) =~= dirs@);
    }
    Ok(sort_by_name(built))
}

/// Whether deleting the named pack may proceed: deletion of an absent pack
/// is refused before any filesystem change; deletion of a present one goes
/// ahead (the driver removes the directory, so the pack no longer appears
/// in later listings).
pub fn delete_pack_outcome(target_exists: bool) -> (r: Result<(), AppError>)
    ensures
        r is Ok <==> target_exists,
        r matches Err(e) ==> e matches AppError::InvalidPack(_),
{
    if target_exists {
        Ok(())
    } else {
        Err(AppError::InvalidPack(String::from_str("pack not found")))
    }
}

/// Selection sort by case-insensitive name: same records, ordered.
fn sort_by_name(packs: Vec<SoundPack>) -> (r: Vec<SoundPack>)
    ensures
        packs_view(r@).to_multiset() == packs_view(packs@).to_multiset(),
        sorted_ci(r@),
{
    broadcast use vstd::seq_lib::group_to_multiset_ensures;
    broadcast use vstd::multiset::group_multiset_axioms;

    let mut src = packs;
    let mut out: Vec<SoundPack> = Vec::new();
    let ghost all = packs_view(src@).to_multiset();
    proof {
        assert(packs_view(out@) =~= Seq::<
            (Seq<char>, Seq<char>, Seq<char>, Option<Seq<char>>, Option<Seq<char>>),
        >::empty());
        assert(packs_view(out@).to_multiset().add(packs_view(src@).to_multiset()) =~= all);
    }
    while src.len() > 0
        invariant
            packs_view(out@).to_multiset().add(packs_view(src@).to_multiset()) == all,
            sorted_ci(out@),
            forall|a: int, b: int|
                0 <= a < out@.len() && 0 <= b < src@.len() ==> lex_le(
                    lower_chars(#[trigger] out@[a].name@),
                    lower_chars(#[trigger] src@[b].name@),
                ),
        decreases src@.len(),
    {
        // find the least remaining key
        proof {
            lemma_lex_total(lower_chars(src@[0].name@), lower_chars(src@[0].name@));
        }
        let mut m: usize = 0;
        let mut j: usize = 1;
        while j < src.len()
            invariant
                src@.len() > 0,
                m < j <= src@.len(),
                forall|k: int|
                    0 <= k < j ==> lex_le(
                        lower_chars(src@[m as int].name@),
                        lower_chars(#[trigger] src@[k].name@),
                    ),
            decreases src@.len() - j,
        {
            if !ci_le(src[m].name.as_str(), src[j].name.as_str()) {
                proof {
                    lemma_lex_total(
                        lower_chars(src@[m as int].name@),
                        lower_chars(src@[j as int].name@),
                    );
                    assert forall|k: int| 0 <= k < j + 1 implies lex_le(
                        lower_chars(src@[j as int].name@),
                        lower_chars(#[trigger] src@[k].name@),
                    ) by {
                        if k < j {
                            lemma_lex_trans(
                                lower_chars(src@[j as int].name@),
                                lower_chars(src@[m as int].name@),
                                lower_chars(src@[k].name@),
                            );
                        } else {
                            lemma_lex_total(
                                lower_chars(src@[j as int].name@),
                                lower_chars(src@[j as int].name@),
                            );
                        }
                    }
                }
                m = j;
            }
            j = j + 1;
        }
        let ghost old_src = src@;
        let ghost old_out = out@;
        let picked = src.remove(m);
        out.push(picked);
        proof {
            let x = pack_view(old_src[m as int]);
            assert(packs_view(old_src)[m as int] == x);
            assert(packs_view(old_src).contains(x));
            assert(packs_view(src@) =~= packs_view(old_src).remove(m as int));
            assert(out@.last() == old_src[m as int]);
            assert(packs_view(out@) =~= packs_view(old_out).push(x));
            // the multisets still add up to the original
            packs_view(old_src).to_multiset_ensures();
            packs_view(old_out).to_multiset_ensures();
            assert(packs_view(old_src).remove(m as int).to_multiset() =~= packs_view(
                old_src,
            ).to_multiset().remove(x));
            assert(packs_view(old_out).push(x).to_multiset() =~= packs_view(
                old_out,
            ).to_multiset().insert(x));
            assert(packs_view(old_src).to_multiset().count(x) > 0);
            assert forall|y: (
                Seq<char>,
                Seq<char>,
                Seq<char>,
                Option<Seq<char>>,
                Option<Seq<char>>,
            )|
                packs_view(out@).to_multiset().add(packs_view(src@).to_multiset()).count(y)
                    == all.count(y) by {
                assert(packs_view(old_out).to_multiset().add(
                    packs_view(old_src).to_multiset(),
                ).count(y) == all.count(y));
            }
            assert(packs_view(out@).to_multiset().add(packs_view(src@).to_multiset()) =~= all);
            // the new element keeps the output sorted
            assert forall|a: int, b: int|
                0 <= a < b < out@.len() implies lex_le(
                lower_chars(#[trigger] out@[a].name@),
                lower_chars(#[trigger] out@[b].name@),
            ) by {
                if b < out@.len() - 1 {
                    assert(out@[a] == old_out[a] && out@[b] == old_out[b]);
                } else {
                    assert(out@[b] == old_src[m as int]);
                    if a < out@.len() - 1 {
                        assert(out@[a] == old_out[a]);
                    }
                }
            }
            // and it still precedes everything left in src
            assert forall|a: int, b: int|
                0 <= a < out@.len() && 0 <= b < src@.len() implies lex_le(
                lower_chars(#[trigger] out@[a].name@),
                lower_chars(#[trigger] src@[b].name@),
            ) by {
                let orig_b = if b < m { b } else { b + 1 };
                assert(src@[b] == old_src[orig_b]);
                if a < out@.len() - 1 {
                    assert(out@[a] == old_out[a]);
                } else {
                    assert(out@[a] == old_src[m as int]);
                }
            }
        }
    }
    proof {
        assert(packs_view(src@) =~= Seq::<
            (Seq<char>, Seq<char>, Seq<char>, Option<Seq<char>>, Option<Seq<char>>),
        >::empty());
        assert(packs_view(out@).to_multiset().add(packs_view(src@).to_multiset()) =~= packs_view(
            out@,
        ).to_multiset());
    }
    out
}

} // verus!
