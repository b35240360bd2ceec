//! Workspace lifecycle logic: the change list computed against a base
//! reference, the merged file listing, base-reference resolution, creation
//! planning, and the archive decision.
//!
//! The version-control tool runs outside this crate; these functions take
//! its textual output and decide everything else.

use vstd::prelude::*;

use crate::store::{ChangeV, UserError, WorkspaceChange};
use crate::strutil::{
    lemma_lex_antisym, lemma_lex_total, lemma_lex_trans, lex_le, spec_join, split_tokens,
    split_string, str_eq, str_le,
};

verus! {

/// Whether a name-status token is a rename or copy record, which carries
/// two paths.
pub open spec fn is_rename_status(s: Seq<char>) -> bool {
    s.len() > 0 && (s[0] == 'R' || s[0] == 'C')
}

/// The change records encoded by a NUL-separated name-status token list:
/// a status then one path, or a rename status then the old and new path.
/// A trailing incomplete record is dropped.
pub open spec fn changes_of(toks: Seq<Seq<char>>) -> Seq<ChangeV>
    decreases toks.len(),
{
    if toks.len() == 0 {
        Seq::empty()
    } else if is_rename_status(toks[0]) {
        if toks.len() >= 3 {
            seq![ChangeV { old_path: Some(toks[1]), path: toks[2], status: toks[0] }]
                + changes_of(toks.subrange(3, toks.len() as int))
        } else {
            Seq::empty()
        }
    } else {
        if toks.len() >= 2 {
            seq![ChangeV { old_path: None, path: toks[1], status: toks[0] }] + changes_of(
                toks.subrange(2, toks.len() as int),
            )
        } else {
            Seq::empty()
        }
    }
}

/// The views of a change list.
pub open spec fn cvs(s: Seq<WorkspaceChange>) -> Seq<ChangeV>
    decreases s.len(),
{
    if s.len() == 0 {
        Seq::empty()
    } else {
        cvs(s.subrange(0, s.len() - 1)).push(s[s.len() - 1].dv())
    }
}

/// `cvs` maps the view pointwise.
pub proof fn lemma_cvs(s: Seq<WorkspaceChange>)
    ensures
        cvs(s).len() == s.len(),
        forall|i: int| 0 <= i < s.len() ==> #[trigger] cvs(s)[i] == s[i].dv(),
    decreases s.len(),
{
    if s.len() > 0 {
        lemma_cvs(s.subrange(0, s.len() - 1));
        assert(forall|i: int|
            0 <= i < s.len() - 1 ==> s.subrange(0, s.len() - 1)[i] == #[trigger] s[i]);
    }
}

/// The paths the changes name, in order.
pub open spec fn paths_of(cs: Seq<ChangeV>) -> Seq<Seq<char>>
    decreases cs.len(),
{
    if cs.len() == 0 {
        Seq::empty()
    } else {
        paths_of(cs.subrange(0, cs.len() - 1)).push(cs[cs.len() - 1].path)
    }
}

/// `paths_of` maps the path pointwise.
pub proof fn lemma_paths_of(cs: Seq<ChangeV>)
    ensures
        paths_of(cs).len() == cs.len(),
        forall|i: int| 0 <= i < cs.len() ==> #[trigger] paths_of(cs)[i] == cs[i].path,
    decreases cs.len(),
{
    if cs.len() > 0 {
        lemma_paths_of(cs.subrange(0, cs.len() - 1));
        assert(forall|i: int|
            0 <= i < cs.len() - 1 ==> cs.subrange(0, cs.len() - 1)[i] == #[trigger] cs[i]);
    }
}

/// The untracked files that add change records: each token whose path no
/// committed change already names, with the untracked status.
pub open spec fn untracked_adds(seen: Seq<Seq<char>>, toks: Seq<Seq<char>>) -> Seq<ChangeV>
    decreases toks.len(),
{
    if toks.len() == 0 {
        Seq::empty()
    } else {
        untracked_adds(seen, toks.subrange(0, toks.len() - 1)) + (if seen.contains(
            toks[toks.len() - 1],
        ) {
            Seq::<ChangeV>::empty()
        } else {
            seq![ChangeV { old_path: None, path: toks[toks.len() - 1], status: "?"@ }]
        })
    }
}

/// The modified-but-unstaged records: status and path pairs, the first
/// occurrence of a path winning.
pub open spec fn modified_adds(toks: Seq<Seq<char>>, seen: Seq<Seq<char>>) -> Seq<ChangeV>
    decreases toks.len(),
{
    if toks.len() < 2 {
        Seq::empty()
    } else {
        let status = toks[0];
        let path = toks[1];
        if seen.contains(path) {
            modified_adds(toks.subrange(2, toks.len() as int), seen)
        } else {
            seq![ChangeV { old_path: None, path, status }] + modified_adds(
                toks.subrange(2, toks.len() as int),
                seen.push(path),
            )
        }
    }
}

/// The change list of a workspace: committed differences against the base,
/// then untracked files, then modified-but-unstaged files, the first
/// occurrence of each path winning.
pub open spec fn spec_workspace_changes(
    diff: Seq<char>,
    untracked: Option<Seq<char>>,
    modified: Option<Seq<char>>,
) -> Seq<ChangeV> {
    let base = changes_of(split_tokens(diff, '\u{0}'));
    let u = match untracked {
        Some(s) => untracked_adds(paths_of(base), split_tokens(s, '\u{0}')),
        None => Seq::empty(),
    };
    let m = match modified {
        Some(s) => modified_adds(split_tokens(s, '\u{0}'), paths_of(base)),
        None => Seq::empty(),
    };
    base + u + m
}

/// Parses one NUL-separated name-status listing.
#[verifier::loop_isolation(false)]
fn parse_name_status(diff: &str) -> (r: Vec<WorkspaceChange>)
    ensures
        cvs(r@) == changes_of(split_tokens(diff@, '\u{0}')),
{
    let toks = split_string(diff, '\u{0}');
    let ghost tv = toks.deep_view();
    let mut out: Vec<WorkspaceChange> = Vec::new();
    let mut i: usize = 0;
    proof {
        assert(cvs(out@) =~= Seq::<ChangeV>::empty());
        assert(tv.subrange(0, tv.len() as int) =~= tv);
        assert(Seq::<ChangeV>::empty() + changes_of(tv.subrange(0, tv.len() as int))
            =~= changes_of(tv));
    }
    while i < toks.len()
        invariant
            0 <= i <= toks@.len(),
            tv == toks.deep_view(),
            tv.len() == toks@.len(),
            cvs(out@) + changes_of(tv.subrange(i as int, tv.len() as int)) == changes_of(tv),
        decreases toks@.len() - i,
    {
        let ghost rest = tv.subrange(i as int, tv.len() as int);
        proof {
            assert(rest[0] == tv[i as int]);
            assert(tv[i as int] == toks@[i as int]@);
        }
        let status = &toks[i];
        let slen = status.as_str().unicode_len();
        let rename = slen > 0 && {
            let c = status.as_str().get_char(0);
            c == 'R' || c == 'C'
        };
        let ghost prev = out@;
        if rename {
            if toks.len() - i > 3 || toks.len() - i == 3 {
                proof {
                    assert(rest[1] == tv[i + 1]);
                    assert(rest[2] == tv[i + 2]);
                    assert(tv[i + 1] == toks@[i + 1]@);
                    assert(tv[i + 2] == toks@[i + 2]@);
                }
                let ch = WorkspaceChange {
                    old_path: Some(toks[i + 1].clone()),
                    path: toks[i + 2].clone(),
                    status: status.clone(),
                };
                out.push(ch);
                proof {
                    lemma_cvs(prev);
                    lemma_cvs(out@);
                    assert(cvs(out@) =~= cvs(prev).push(
                        ChangeV { old_path: Some(tv[i + 1]), path: tv[i + 2], status: tv[i as int] },
                    ));
                    assert(rest.subrange(3, rest.len() as int) =~= tv.subrange(
                        i + 3,
                        tv.len() as int,
                    ));
                    assert(cvs(out@) + changes_of(tv.subrange(i + 3, tv.len() as int))
                        =~= changes_of(tv));
                }
                i += 3;
            } else {
                proof {
                    assert(rest.len() < 3);
                    assert(changes_of(rest) =~= Seq::<ChangeV>::empty());
                    assert(cvs(out@) =~= changes_of(tv));
                }
                return out;
            }
        } else {
            if toks.len() - i > 2 || toks.len() - i == 2 {
                proof {
                    assert(rest[1] == tv[i + 1]);
                    assert(tv[i + 1] == toks@[i + 1]@);
                }
                let ch = WorkspaceChange {
                    old_path: None,
                    path: toks[i + 1].clone(),
                    status: status.clone(),
                };
                out.push(ch);
                proof {
                    lemma_cvs(prev);
                    lemma_cvs(out@);
                    assert(cvs(out@) =~= cvs(prev).push(
                        ChangeV { old_path: None, path: tv[i + 1], status: tv[i as int] },
                    ));
                    assert(rest.subrange(2, rest.len() as int) =~= tv.subrange(
                        i + 2,
                        tv.len() as int,
                    ));
                    assert(cvs(out@) + changes_of(tv.subrange(i + 2, tv.len() as int))
                        =~= changes_of(tv));
                }
                i += 2;
            } else {
                proof {
                    assert(rest.len() < 2);
                    assert(!is_rename_status(rest[0]) ==> changes_of(rest)
                        =~= Seq::<ChangeV>::empty());
                    assert(cvs(out@) =~= changes_of(tv));
                }
                return out;
            }
        }
    }
    proof {
        assert(tv.subrange(tv.len() as int, tv.len() as int) =~= Seq::<Seq<char>>::empty());
        assert(cvs(out@) + Seq::<ChangeV>::empty() =~= cvs(out@));
    }
    out
}

/// Computes a workspace's change list from the three listings the
/// version-control tool reports: committed differences (name-status,
/// NUL-separated), untracked files, and modified-but-unstaged files.
#[verifier::loop_isolation(false)]
#[verifier::rlimit(100)]
pub fn workspace_changes(diff: &str, untracked: Option<&String>, modified: Option<&String>) -> (r:
    Vec<WorkspaceChange>)
    ensures
        cvs(r@) == spec_workspace_changes(
            diff@,
            match untracked {
                Some(s) => Some(s@),
                None => None,
            },
            match modified {
                Some(s) => Some(s@),
                None => None,
            },
        ),
{
    let mut out = parse_name_status(diff);
    let ghost base = cvs(out@);
    proof {
        lemma_cvs(out@);
        lemma_paths_of(base);
    }
    let mut seen: Vec<String> = Vec::new();
    let mut k: usize = 0;
    while k < out.len()
        invariant
            0 <= k <= out@.len(),
            cvs(out@) == base,
            base.len() == out@.len(),
            seen.deep_view() == paths_of(base.subrange(0, k as int)),
        decreases out@.len() - k,
    {
        let ghost prev = seen.deep_view();
        seen.push(out[k].path.clone());
        proof {
            lemma_cvs(out@);
            lemma_paths_of(base.subrange(0, k + 1));
            lemma_paths_of(base.subrange(0, k as int));
            assert(base.subrange(0, k + 1).subrange(0, k as int) =~= base.subrange(0, k as int));
            assert(seen.deep_view() =~= paths_of(base.subrange(0, k + 1)));
        }
        k += 1;
    }
    proof {
        assert(base.subrange(0, base.len() as int) =~= base);
    }
    let ghost seen0 = seen.deep_view();
    match untracked {
        Some(u) => {
            let toks = split_string(u.as_str(), '\u{0}');
            let ghost tv = toks.deep_view();
            let mut i: usize = 0;
            proof {
                assert(tv.subrange(0, 0) =~= Seq::<Seq<char>>::empty());
                assert(cvs(out@) =~= base + untracked_adds(seen0, tv.subrange(0, 0)));
            }
            while i < toks.len()
                invariant
                    0 <= i <= toks@.len(),
                    tv == toks.deep_view(),
                    tv.len() == toks@.len(),
                    seen0 == paths_of(base),
                    seen.deep_view() == seen0,
                    cvs(out@) == base + untracked_adds(seen0, tv.subrange(0, i as int)),
                decreases toks@.len() - i,
            {
                proof {
                    assert(tv.subrange(0, i + 1).subrange(0, i as int) =~= tv.subrange(
                        0,
                        i as int,
                    ));
                    assert(tv.subrange(0, i + 1)[i as int] == tv[i as int]);
                    assert(tv[i as int] == toks@[i as int]@);
                }
                let ghost prev = cvs(out@);
                let ghost prev_vec = out@;
                if !crate::naming::contains_str(&seen, toks[i].as_str()) {
                    let ch = WorkspaceChange {
                        old_path: None,
                        path: toks[i].clone(),
                        status: "?".to_owned(),
                    };
                    out.push(ch);
                    proof {
                        lemma_cvs(prev_vec);
                        lemma_cvs(out@);
                        assert(cvs(out@) =~= prev.push(
                            ChangeV { old_path: None, path: tv[i as int], status: "?"@ },
                        ));
                    }
                }
                proof {
                    assert(cvs(out@) =~= base + untracked_adds(seen0, tv.subrange(0, i + 1)));
                }
                i += 1;
            }
            proof {
                assert(tv.subrange(0, tv.len() as int) =~= tv);
            }
        },
        None => {
            proof {
                assert(cvs(out@) =~= base + Seq::<ChangeV>::empty());
            }
        },
    }
    let ghost mid = cvs(out@);
    match modified {
        Some(m) => {
            let toks = split_string(m.as_str(), '\u{0}');
            let ghost tv = toks.deep_view();
            let mut i: usize = 0;
            proof {
                assert(tv.subrange(0, tv.len() as int) =~= tv);
                assert(cvs(out@) + modified_adds(
                    tv.subrange(0, tv.len() as int),
                    seen.deep_view(),
                ) =~= mid + modified_adds(tv, seen0));
            }
            while i < toks.len() && toks.len() - i >= 2
                invariant
                    0 <= i <= toks@.len(),
                    tv == toks.deep_view(),
                    tv.len() == toks@.len(),
                    cvs(out@) + modified_adds(tv.subrange(i as int, tv.len() as int), seen.deep_view())
                        == mid + modified_adds(tv, seen0),
                decreases toks@.len() - i,
            {
                let ghost rest = tv.subrange(i as int, tv.len() as int);
                proof {
                    assert(rest[0] == tv[i as int]);
                    assert(rest[1] == tv[i + 1]);
                    assert(tv[i as int] == toks@[i as int]@);
                    assert(tv[i + 1] == toks@[i + 1]@);
                    assert(rest.subrange(2, rest.len() as int) =~= tv.subrange(
                        i + 2,
                        tv.len() as int,
                    ));
                }
                let ghost prev = cvs(out@);
                let ghost prev_vec = out@;
                let ghost seen_prev = seen.deep_view();
                if !crate::naming::contains_str(&seen, toks[i + 1].as_str()) {
                    let ch = WorkspaceChange {
                        old_path: None,
                        path: toks[i + 1].clone(),
                        status: toks[i].clone(),
                    };
                    out.push(ch);
                    seen.push(toks[i + 1].clone());
                    proof {
                        lemma_cvs(prev_vec);
                        lemma_cvs(out@);
                        assert(cvs(out@) =~= prev.push(
                            ChangeV { old_path: None, path: tv[i + 1], status: tv[i as int] },
                        ));
                        assert(seen.deep_view() =~= seen_prev.push(tv[i + 1]));
                    }
                }
                i += 2;
            }
            proof {
                let rest = tv.subrange(i as int, tv.len() as int);
                assert(rest.len() < 2);
                assert(modified_adds(rest, seen.deep_view()) =~= Seq::<ChangeV>::empty());
                assert(cvs(out@) + Seq::<ChangeV>::empty() =~= cvs(out@));
            }
        },
        None => {
            proof {
                assert(cvs(out@) =~= mid + Seq::<ChangeV>::empty());
            }
        },
    }
    out
}

/// Strictly increasing in the lexicographic order: sorted, no duplicates.
pub open spec fn sorted_strict(s: Seq<Seq<char>>) -> bool {
    forall|i: int, j: int|
        0 <= i < j < s.len() ==> lex_le(#[trigger] s[i], #[trigger] s[j]) && s[i] != s[j]
}

/// Puts `x` into a strictly sorted list, keeping it strictly sorted and
/// adding exactly `x` to its members.
#[verifier::loop_isolation(false)]
#[verifier::rlimit(60)]
fn insert_unique(out: &mut Vec<String>, x: String)
    requires
        sorted_strict(old(out).deep_view()),
    ensures
        sorted_strict(final(out).deep_view()),
        forall|y: Seq<char>|
            final(out).deep_view().contains(y) == (old(out).deep_view().contains(y) || y == x@),
{
    let ghost xs = x@;
    let ghost dv0 = out.deep_view();
    let mut p: usize = 0;
    while p < out.len()
        invariant
            0 <= p <= out@.len(),
            out@ == old(out)@,
            sorted_strict(out.deep_view()),
            forall|j: int|
                0 <= j < p ==> lex_le(#[trigger] out.deep_view()[j], xs) && out.deep_view()[j]
                    != xs,
        decreases out@.len() - p,
    {
        if str_eq(out[p].as_str(), x.as_str()) {
            proof {
                assert(out.deep_view()[p as int] == xs);
                assert(forall|y: Seq<char>|
                    out.deep_view().contains(y) == (dv0.contains(y) || y == xs));
            }
            return;
        }
        if !str_le(out[p].as_str(), x.as_str()) {
            proof {
                lemma_lex_total(out.deep_view()[p as int], xs);
            }
            let ghost outp = out.deep_view()[p as int];
            out.insert(p, x);
            proof {
                let dv = out.deep_view();
                assert(dv.len() == dv0.len() + 1);
                assert(forall|j: int| 0 <= j < p ==> #[trigger] dv[j] == dv0[j]);
                assert(dv[p as int] == xs);
                assert(forall|j: int| p < j < dv.len() ==> #[trigger] dv[j] == dv0[j - 1]);
                assert forall|i: int, j: int|
                    0 <= i < j < dv.len() implies lex_le(#[trigger] dv[i], #[trigger] dv[j])
                    && dv[i] != dv[j] by {
                    if j < p {
                    } else if j == p {
                        assert(dv[i] == dv0[i]);
                    } else if i == p {
                        assert(dv[j] == dv0[j - 1]);
                        assert(lex_le(xs, outp));
                        if j - 1 > p {
                            assert(lex_le(outp, dv0[j - 1]));
                            lemma_lex_trans(xs, outp, dv0[j - 1]);
                            if xs == dv0[j - 1] {
                                lemma_lex_antisym(xs, outp);
                            }
                        }
                    } else if i < p {
                        assert(dv[i] == dv0[i]);
                        assert(dv[j] == dv0[j - 1]);
                        if i == j - 1 {
                            assert(lex_le(dv0[i], xs));
                            assert(lex_le(xs, dv0[i]) ==> false) by {
                                if lex_le(xs, dv0[i]) {
                                    lemma_lex_antisym(xs, dv0[i]);
                                }
                            }
                            assert(lex_le(dv0[i], outp));
                            assert(dv0[j - 1] == outp);
                        }
                    } else {
                        assert(dv[i] == dv0[i - 1]);
                        assert(dv[j] == dv0[j - 1]);
                    }
                }
                assert forall|y: Seq<char>|
                    dv.contains(y) == (dv0.contains(y) || y == xs) by {
                    if dv.contains(y) {
                        let w = choose|w: int| 0 <= w < dv.len() && dv[w] == y;
                        if w < p {
                            assert(dv0[w] == y);
                        } else if w == p {
                        } else {
                            assert(dv0[w - 1] == y);
                        }
                    }
                    if dv0.contains(y) {
                        let w = choose|w: int| 0 <= w < dv0.len() && dv0[w] == y;
                        if w < p {
                            assert(dv[w] == y);
                        } else {
                            assert(dv[w + 1] == y);
                        }
                    }
                    if y == xs {
                        assert(dv[p as int] == y);
                    }
                }
            }
            return;
        }
        p += 1;
    }
    let ghost dvb = out.deep_view();
    out.push(x);
    proof {
        let dv = out.deep_view();
        assert(dv.len() == dvb.len() + 1);
        assert(forall|j: int| 0 <= j < dvb.len() ==> #[trigger] dv[j] == dvb[j]);
        assert(dv[dv.len() - 1] == xs);
        assert forall|i: int, j: int|
            0 <= i < j < dv.len() implies lex_le(#[trigger] dv[i], #[trigger] dv[j]) && dv[i]
            != dv[j] by {
            if j == dv.len() - 1 {
                assert(dv[i] == dvb[i]);
            }
        }
        assert forall|y: Seq<char>| dv.contains(y) == (dvb.contains(y) || y == xs) by {
            if dv.contains(y) {
                let w = choose|w: int| 0 <= w < dv.len() && dv[w] == y;
                if w < dv.len() - 1 {
                    assert(dvb[w] == y);
                }
            }
            if dvb.contains(y) {
                let w = choose|w: int| 0 <= w < dvb.len() && dvb[w] == y;
                assert(dv[w] == y);
            }
            if y == xs {
                assert(dv[dv.len() - 1] == y);
            }
        }
    }
}

/// The file listing of a workspace: the union of its tracked files and its
/// untracked-but-not-ignored files, as a sorted, de-duplicated list.
#[verifier::loop_isolation(false)]
#[verifier::rlimit(100)]
pub fn workspace_files(listing: &str, untracked: Option<&String>) -> (r: Vec<String>)
    ensures
        sorted_strict(r.deep_view()),
        forall|y: Seq<char>|
            r.deep_view().contains(y) == (split_tokens(listing@, '\u{0}').contains(y) || (
            match untracked {
                Some(u) => split_tokens(u@, '\u{0}').contains(y),
                None => false,
            })),
{
    let toks = split_string(listing, '\u{0}');
    let ghost t1 = toks.deep_view();
    let mut out: Vec<String> = Vec::new();
    let mut i: usize = 0;
    proof {
        assert(out.deep_view() =~= Seq::<Seq<char>>::empty());
        assert(t1.subrange(0, 0) =~= Seq::<Seq<char>>::empty());
    }
    while i < toks.len()
        invariant
            0 <= i <= toks@.len(),
            t1 == toks.deep_view(),
            t1.len() == toks@.len(),
            sorted_strict(out.deep_view()),
            forall|y: Seq<char>|
                out.deep_view().contains(y) == t1.subrange(0, i as int).contains(y),
        decreases toks@.len() - i,
    {
        let ghost prev = out.deep_view();
        insert_unique(&mut out, toks[i].clone());
        proof {
            assert(t1[i as int] == toks@[i as int]@);
            assert forall|y: Seq<char>|
                out.deep_view().contains(y) == t1.subrange(0, i + 1).contains(y) by {
                if t1.subrange(0, i + 1).contains(y) {
                    let w = choose|w: int| 0 <= w < i + 1 && #[trigger] t1.subrange(0, i + 1)[w] == y;
                    if w < i {
                        assert(t1.subrange(0, i as int)[w] == y);
                    } else {
                        assert(y == t1[i as int]);
                    }
                }
                if out.deep_view().contains(y) {
                    if prev.contains(y) {
                        let w = choose|w: int|
                            0 <= w < i && #[trigger] t1.subrange(0, i as int)[w] == y;
                        assert(t1.subrange(0, i + 1)[w] == y);
                    } else {
                        assert(t1.subrange(0, i + 1)[i as int] == y);
                    }
                }
            }
        }
        i += 1;
    }
    proof {
        assert(t1.subrange(0, t1.len() as int) =~= t1);
    }
    match untracked {
        Some(u) => {
            let toks2 = split_string(u.as_str(), '\u{0}');
            let ghost t2 = toks2.deep_view();
            let mut j: usize = 0;
            proof {
                assert(t2.subrange(0, 0) =~= Seq::<Seq<char>>::empty());
            }
            while j < toks2.len()
                invariant
                    0 <= j <= toks2@.len(),
                    t2 == toks2.deep_view(),
                    t2.len() == toks2@.len(),
                    sorted_strict(out.deep_view()),
                    forall|y: Seq<char>|
                        out.deep_view().contains(y) == (t1.contains(y) || t2.subrange(
                            0,
                            j as int,
                        ).contains(y)),
                decreases toks2@.len() - j,
            {
                let ghost prev = out.deep_view();
                let ghost jj = j as int;
                insert_unique(&mut out, toks2[j].clone());
                j += 1;
                proof {
                    assert(t2[jj] == toks2@[jj]@);
                    assert forall|y: Seq<char>|
                        out.deep_view().contains(y) == (t1.contains(y) || t2.subrange(
                            0,
                            j as int,
                        ).contains(y)) by {
                        assert(prev.contains(y) == (t1.contains(y) || t2.subrange(
                            0,
                            jj,
                        ).contains(y)));
                        assert(out.deep_view().contains(y) == (prev.contains(y) || y
                            == t2[jj]));
                        if t2.subrange(0, j as int).contains(y) {
                            let w = choose|w: int|
                                0 <= w < j && #[trigger] t2.subrange(0, j as int)[w] == y;
                            if w < jj {
                                assert(t2.subrange(0, jj)[w] == y);
                            } else {
                                assert(y == t2[jj]);
                            }
                        }
                        if out.deep_view().contains(y) && !prev.contains(y) {
                            assert(t2.subrange(0, j as int)[jj] == y);
                        }
                        if prev.contains(y) && t2.subrange(0, jj).contains(y) {
                            let w = choose|w: int|
                                0 <= w < jj && #[trigger] t2.subrange(0, jj)[w] == y;
                            assert(t2.subrange(0, j as int)[w] == y);
                        }
                    }
                }
            }
            proof {
                assert(t2.subrange(0, t2.len() as int) =~= t2);
                assert forall|y: Seq<char>|
                    out.deep_view().contains(y) == (t1.contains(y) || t2.contains(y)) by {
                    assert(out.deep_view().contains(y) == (t1.contains(y) || t2.subrange(
                        0,
                        t2.len() as int,
                    ).contains(y)));
                }
            }
            out
        },
        None => {
            proof {
                assert forall|y: Seq<char>| out.deep_view().contains(y) == t1.contains(y) by {
                    assert(out.deep_view().contains(y) == t1.subrange(
                        0,
                        t1.len() as int,
                    ).contains(y));
                }
            }
            out
        },
    }
}

/// Resolves a base branch name against what the version-control tool
/// reported: the local ref when it exists; the only remote tracking ref
/// when exactly one matches; `origin/<base>` as the tie-breaker; otherwise
/// an error naming the branch.
pub fn resolve_base_ref(base: &str, local_exists: bool, remote_refs: &Vec<String>) -> (r: Result<
    String,
    UserError,
>)
    ensures
        ({
            let refs = remote_refs.deep_view();
            if local_exists {
                r matches Ok(b) && b@ == base@
            } else if refs.len() == 1 {
                r matches Ok(b) && b@ == refs[0]
            } else if refs.len() > 1 {
                if refs.contains("origin/"@ + base@) {
                    r matches Ok(b) && b@ == "origin/"@ + base@
                } else {
                    r matches Err(e) && (e matches UserError::Validation(m) && m@
                        == "base branch is ambiguous across remotes: "@ + base@ + " ("@
                        + spec_join(refs, ", "@) + ")"@)
                }
            } else {
                r matches Err(e) && (e matches UserError::Validation(m) && m@
                    == "base branch not found: "@ + base@)
            }
        }),
{
    if local_exists {
        return Ok(base.to_owned());
    }
    if remote_refs.len() == 1 {
        return Ok(remote_refs[0].clone());
    }
    if remote_refs.len() > 1 {
        let mut preferred = "origin/".to_owned();
        preferred.append(base);
        if crate::naming::contains_str(remote_refs, preferred.as_str()) {
            return Ok(preferred);
        }
        let mut msg = "base branch is ambiguous across remotes: ".to_owned();
        msg.append(base);
        msg.append(" (");
        msg.append(crate::strutil::join_strings(remote_refs, ", ").as_str());
        msg.append(")");
        proof {
            assert(msg@ =~= "base branch is ambiguous across remotes: "@ + base@ + " ("@
                + spec_join(remote_refs.deep_view(), ", "@) + ")"@);
        }
        return Err(UserError::Validation(msg));
    }
    let mut msg = "base branch not found: ".to_owned();
    msg.append(base);
    Err(UserError::Validation(msg))
}

/// What archiving decides, before anything runs: whether to refuse, whether
/// to remove the working copy and with what force, and whether to mark the
/// row archived.
pub struct ArchivePlan {
    pub refuse: bool,
    pub remove: bool,
    pub remove_force: bool,
    pub update_row: bool,
}

/// The archive decision: a dirty working copy is refused unless forced;
/// an absent directory skips removal; the row is marked archived in every
/// case but a refusal.
pub open spec fn spec_archive_plan(path_exists: bool, clean: bool, force: bool) -> ArchivePlan {
    let refuse = path_exists && !force && !clean;
    ArchivePlan {
        refuse,
        remove: path_exists && !refuse,
        remove_force: path_exists && !refuse && force,
        update_row: !refuse,
    }
}

/// Decides an archival.
pub fn archive_plan(path_exists: bool, clean: bool, force: bool) -> (r: ArchivePlan)
    ensures
        r == spec_archive_plan(path_exists, clean, force),
{
    let refuse = path_exists && !force && !clean;
    ArchivePlan {
        refuse,
        remove: path_exists && !refuse,
        remove_force: path_exists && !refuse && force,
        update_row: !refuse,
    }
}

/// Archival of a dirty working copy without force refuses: the directory is
/// not removed and the workspace row is left untouched.
pub proof fn lemma_archive_dirty_refused()
    ensures
        ({
            let p = spec_archive_plan(true, false, false);
            p.refuse && !p.remove && !p.update_row
        }),
{
}

/// The message a refused archival reports, naming the workspace directory.
pub fn archive_refusal_message(ws_path: &str) -> (r: String)
    ensures
        r@ == "workspace has uncommitted changes; commit or stash before archiving, or pass --force: "@
            + ws_path@,
{
    let mut out =
        "workspace has uncommitted changes; commit or stash before archiving, or pass --force: ".to_owned();
    out.append(ws_path);
    out
}

/// Forced archival removes the directory with force and marks the row; a
/// repeat archival, with the directory gone, removes nothing but still
/// marks the row: archival is idempotent.
pub proof fn lemma_archive_force_idempotent(clean: bool, force: bool)
    ensures
        ({
            let first = spec_archive_plan(true, clean, true);
            &&& first.remove
            &&& first.remove_force
            &&& first.update_row
            &&& !first.refuse
        }),
        ({
            let again = spec_archive_plan(false, clean, force);
            &&& !again.remove
            &&& again.update_row
            &&& !again.refuse
        }),
{
}

/// The message an archival reports: what happened to the directory, with
/// any best-effort failure noted but never overriding the outcome.
pub open spec fn spec_archive_message(
    path_exists: bool,
    sidecar_err: Option<Seq<char>>,
    prune_err: Option<Seq<char>>,
) -> Seq<char> {
    let base = if path_exists {
        match sidecar_err {
            Some(e) => "warning: failed to archive session data: "@ + e,
            None => "archived"@,
        }
    } else {
        "workspace path already removed"@
    };
    match prune_err {
        Some(e) => base + " (prune failed: "@ + e + ")"@,
        None => base,
    }
}

/// Builds the message of an archive result.
pub fn archive_message(path_exists: bool, sidecar_err: Option<&String>, prune_err: Option<&String>)
    -> (r: String)
    ensures
        r@ == spec_archive_message(
            path_exists,
            match sidecar_err {
                Some(e) => Some(e@),
                None => None,
            },
            match prune_err {
                Some(e) => Some(e@),
                None => None,
            },
        ),
{
    let mut base: String = if path_exists {
        match sidecar_err {
            Some(e) => {
                let mut m = "warning: failed to archive session data: ".to_owned();
                m.append(e.as_str());
                m
            },
            None => "archived".to_owned(),
        }
    } else {
        "workspace path already removed".to_owned()
    };
    match prune_err {
        Some(e) => {
            base.append(" (prune failed: ");
            base.append(e.as_str());
            base.append(")");
            proof {
                assert(base@ =~= spec_archive_message(
                    path_exists,
                    match sidecar_err {
                        Some(x) => Some(x@),
                        None => None,
                    },
                    Some(e@),
                ));
            }
            base
        },
        None => base,
    }
}

/// The working branch and directory name of a new workspace: the caller's
/// name, else the leaf of the caller's branch, else the drawn name; the
/// branch defaults to the name.
pub fn derive_workspace_names(
    name: Option<&String>,
    branch: Option<&String>,
    auto: &str,
) -> (r: (String, String))
    ensures
        ({
            let n = match (name, branch) {
                (Some(n), _) => n@,
                (None, Some(b)) => crate::naming::spec_safe_dir_name(
                    crate::naming::tail_after_last(b@, '/'),
                ),
                (None, None) => auto@,
            };
            r.0@ == n && r.1@ == (match branch {
                Some(b) => b@,
                None => n,
            })
        }),
{
    let n: String = match (name, branch) {
        (Some(n), _) => n.clone(),
        (None, Some(b)) => {
            let leaf = crate::naming::last_segment(b.as_str());
            crate::naming::safe_dir_name(leaf.as_str())
        },
        (None, None) => auto.to_owned(),
    };
    let b: String = match branch {
        Some(b) => b.clone(),
        None => n.clone(),
    };
    (n, b)
}

/// The directory that groups a repository's workspaces, and the path of one
/// workspace in it.
pub fn workspace_paths(home: &str, repo_name: &str, repo_id: &str, ws_name: &str) -> (r: (
    String,
    String,
))
    requires
        repo_id@.len() >= 8,
    ensures
        r.0@ == crate::naming::spec_safe_dir_name(repo_name@) + "-"@ + repo_id@.subrange(0, 8),
        r.1@ == home@ + "/workspaces/"@ + r.0@ + "/"@ + ws_name@,
{
    let mut repo_dir = crate::naming::safe_dir_name(repo_name);
    repo_dir.append("-");
    let id8 = repo_id.substring_char(0, 8);
    repo_dir.append(id8);
    let mut path = home.to_owned();
    path.append("/workspaces/");
    path.append(repo_dir.as_str());
    path.append("/");
    path.append(ws_name);
    proof {
        assert(repo_dir@ =~= crate::naming::spec_safe_dir_name(repo_name@) + "-"@
            + repo_id@.subrange(0, 8));
        assert(path@ =~= home@ + "/workspaces/"@ + repo_dir@ + "/"@ + ws_name@);
    }
    (repo_dir, path)
}

/// The arguments of the worktree call that creates a workspace: at an
/// existing branch directly, otherwise as a new branch off the base.
pub fn worktree_add_args(path: &str, branch: &str, branch_exists: bool, base_ref: &str) -> (r: Vec<
    String,
>)
    ensures
        r.deep_view() == (if branch_exists {
            seq!["worktree"@, "add"@, "--"@, path@, branch@]
        } else {
            seq!["worktree"@, "add"@, "-b"@, branch@, "--"@, path@, base_ref@]
        }),
{
    let mut out: Vec<String> = Vec::new();
    out.push("worktree".to_owned());
    out.push("add".to_owned());
    if branch_exists {
        out.push("--".to_owned());
        out.push(path.to_owned());
        out.push(branch.to_owned());
        proof {
            assert(out.deep_view() =~= seq!["worktree"@, "add"@, "--"@, path@, branch@]);
        }
    } else {
        out.push("-b".to_owned());
        out.push(branch.to_owned());
        out.push("--".to_owned());
        out.push(path.to_owned());
        out.push(base_ref.to_owned());
        proof {
            assert(out.deep_view() =~= seq![
                "worktree"@,
                "add"@,
                "-b"@,
                branch@,
                "--"@,
                path@,
                base_ref@,
            ]);
        }
    }
    out
}

/// The arguments of the worktree call that removes a workspace.
pub fn worktree_remove_args(path: &str, force: bool) -> (r: Vec<String>)
    ensures
        r.deep_view() == (if force {
            seq!["worktree"@, "remove"@, "--force"@, "--"@, path@]
        } else {
            seq!["worktree"@, "remove"@, "--"@, path@]
        }),
{
    let mut out: Vec<String> = Vec::new();
    out.push("worktree".to_owned());
    out.push("remove".to_owned());
    if force {
        out.push("--force".to_owned());
    }
    out.push("--".to_owned());
    out.push(path.to_owned());
    proof {
        if force {
            assert(out.deep_view() =~= seq![
                "worktree"@,
                "remove"@,
                "--force"@,
                "--"@,
                path@,
            ]);
        } else {
            assert(out.deep_view() =~= seq!["worktree"@, "remove"@, "--"@, path@]);
        }
    }
    out
}

} // verus!
