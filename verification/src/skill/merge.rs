//! Skills found under several roots: where the roots are, and how the
//! skills found there are merged, one per name, ordered by name.
use crate::skill::{normalize_skill_name, skill_key, skill_keys, Skill};
use crate::text::{
    contains_string, join_path, lemma_text_lt_asym, lemma_text_lt_total, lemma_text_lt_trans, path_join, strings_view,
    text_lt, text_lt_exec,
};
use vstd::prelude::*;

verus! {

/// The skill at `k` is the first one found with its lookup key.
pub open spec fn first_of_key(found: Seq<Skill>, k: int) -> bool {
    forall|j: int| 0 <= j < k ==> skill_key(#[trigger] found[j]) != skill_key(found[k])
}

/// The skills kept from those found: the first found for each lookup key.
pub open spec fn kept_skills(found: Seq<Skill>) -> Set<Skill> {
    Set::new(|s: Skill| exists|k: int| 0 <= k < found.len() && found[k] == s && first_of_key(found, k))
}

/// Skills ordered by name, strictly.
pub open spec fn sorted_by_name(v: Seq<Skill>) -> bool {
    forall|i: int, j: int| 0 <= i < j < v.len() ==> text_lt(v[i].name@, v[j].name@)
}

/// The skills found under the roots (each root's skills in name order, roots in
/// priority order), merged: one skill per lookup key, the first found, and
/// ordered by name.
pub fn merge_discovered_skills(found: Vec<Skill>) -> (r: Vec<Skill>)
    ensures
        sorted_by_name(r@),
        r@.to_set() == kept_skills(found@),
        r@.no_duplicates(),
{
    let ghost all = found@;
    let mut rest = found;
    let mut out: Vec<Skill> = Vec::new();
    let mut seen: Vec<String> = Vec::new();
    let ghost mut done: int = 0;
    assert(all.subrange(0, all.len() as int) =~= all);
    while rest.len() > 0
        invariant
            0 <= done <= all.len(),
            rest@ == all.subrange(done, all.len() as int),
            sorted_by_name(out@),
            out@.to_set() == kept_skills(all.subrange(0, done)),
            strings_view(seen@).to_set() == skill_keys(all.subrange(0, done)).to_set(),
            forall|i: int| 0 <= i < out@.len() ==> strings_view(seen@).contains(#[trigger] skill_key(out@[i])),
        decreases rest.len(),
    {
        let ghost pre = all.subrange(0, done);
        let ghost next = all.subrange(0, done + 1);
        assert(rest@[0] == all[done]);
        let s = rest.remove(0);
        assert(rest@ =~= all.subrange(done + 1, all.len() as int));
        assert(next =~= pre.push(s));
        let key = normalize_skill_name(s.name.as_str());
        assert(key@ == skill_key(s));
        assert(skill_keys(next) =~= skill_keys(pre).push(key@));
        proof {
            skill_keys(pre).lemma_push_to_set_commute(key@);
        }
        if contains_string(&seen, &key) {
            proof {
                assert(skill_keys(pre).to_set().contains(key@));
                let j = choose|j: int| 0 <= j < pre.len() && #[trigger] skill_keys(pre)[j] == key@;
                assert(skill_key(pre[j]) == key@);
                assert(skill_keys(next).to_set() =~= skill_keys(pre).to_set());
                assert(kept_skills(next) =~= kept_skills(pre)) by {
                    assert forall|x: Skill| kept_skills(next).contains(x) implies kept_skills(pre).contains(x) by {
                        let k = choose|k: int| 0 <= k < next.len() && next[k] == x && first_of_key(next, k);
                        if k == done {
                            assert(skill_key(next[j]) == skill_key(next[k]));
                        } else {
                            assert(first_of_key(pre, k)) by {
                                assert forall|q: int| 0 <= q < k implies skill_key(#[trigger] pre[q]) != skill_key(pre[k]) by {
                                    assert(pre[q] == next[q]);
                                }
                            }
                        }
                    }
                    assert forall|x: Skill| kept_skills(pre).contains(x) implies kept_skills(next).contains(x) by {
                        let k = choose|k: int| 0 <= k < pre.len() && pre[k] == x && first_of_key(pre, k);
                        assert(next[k] == x);
                        assert(first_of_key(next, k)) by {
                            assert forall|q: int| 0 <= q < k implies skill_key(#[trigger] next[q]) != skill_key(next[k]) by {
                                assert(pre[q] == next[q]);
                            }
                        }
                    }
                }
            }
        } else {
            proof {
                assert(!skill_keys(pre).to_set().contains(key@));
            }
            // Where the skill goes: after every skill named before it.
            let mut p: usize = 0;
            while p < out.len() && text_lt_exec(out[p].name.as_str(), s.name.as_str())
                invariant
                    p <= out@.len(),
                    forall|i: int| 0 <= i < p ==> text_lt(out@[i].name@, s.name@),
                decreases out@.len() - p,
            {
                p += 1;
            }
            proof {
                assert forall|i: int| 0 <= i < out@.len() implies out@[i].name@ != s.name@ by {
                    if out@[i].name@ == s.name@ {
                        assert(skill_key(out@[i]) == key@);
                        assert(strings_view(seen@).contains(skill_key(out@[i])));
                    }
                }
                if p < out@.len() {
                    lemma_text_lt_total(out@[p as int].name@, s.name@);
                    assert forall|i: int| p <= i < out@.len() implies text_lt(s.name@, out@[i].name@) by {
                        if i > p {
                            lemma_text_lt_trans(s.name@, out@[p as int].name@, out@[i].name@);
                        }
                    }
                }
            }
            let ghost before = out@;
            let ghost sv = s;
            out.insert(p, s);
            proof {
                assert(out@ =~= before.insert(p as int, sv));
                assert forall|i: int, j: int| 0 <= i < j < out@.len() implies text_lt(out@[i].name@, out@[j].name@) by {
                    if j < p {
                        assert(out@[i] == before[i] && out@[j] == before[j]);
                    } else if j == p {
                        assert(out@[i] == before[i]);
                    } else if i == p {
                        assert(out@[j] == before[j - 1]);
                    } else if i < p {
                        assert(out@[i] == before[i] && out@[j] == before[j - 1]);
                    } else {
                        assert(out@[i] == before[i - 1] && out@[j] == before[j - 1]);
                    }
                }
                assert(out@.to_set() =~= before.to_set().insert(sv)) by {
                    assert forall|x: Skill| out@.to_set().contains(x) implies before.to_set().insert(sv).contains(x) by {
                        let i = choose|i: int| 0 <= i < out@.len() && out@[i] == x;
                        if i < p {
                            assert(before[i] == x);
                        } else if i > p {
                            assert(before[i - 1] == x);
                        }
                    }
                    assert forall|x: Skill| before.to_set().insert(sv).contains(x) implies out@.to_set().contains(x) by {
                        if x == sv {
                            assert(out@[p as int] == x);
                        } else {
                            let i = choose|i: int| 0 <= i < before.len() && before[i] == x;
                            if i < p {
                                assert(out@[i] == x);
                            } else {
                                assert(out@[i + 1] == x);
                            }
                        }
                    }
                }
                assert(first_of_key(next, done)) by {
                    assert forall|q: int| 0 <= q < done implies skill_key(#[trigger] next[q]) != skill_key(next[done]) by {
                        assert(skill_keys(pre)[q] == skill_key(pre[q]));
                        assert(next[q] == pre[q]);
                    }
                }
                assert(kept_skills(next) =~= kept_skills(pre).insert(sv)) by {
                    assert forall|x: Skill| kept_skills(next).contains(x) implies kept_skills(pre).insert(sv).contains(x) by {
                        let k = choose|k: int| 0 <= k < next.len() && next[k] == x && first_of_key(next, k);
                        if k < done {
                            assert(first_of_key(pre, k)) by {
                                assert forall|q: int| 0 <= q < k implies skill_key(#[trigger] pre[q]) != skill_key(pre[k]) by {
                                    assert(pre[q] == next[q]);
                                }
                            }
                        }
                    }
                    assert forall|x: Skill| kept_skills(pre).insert(sv).contains(x) implies kept_skills(next).contains(x) by {
                        if x == sv {
                            assert(next[done] == x);
                        } else {
                            let k = choose|k: int| 0 <= k < pre.len() && pre[k] == x && first_of_key(pre, k);
                            assert(next[k] == x);
                            assert(first_of_key(next, k)) by {
                                assert forall|q: int| 0 <= q < k implies skill_key(#[trigger] next[q]) != skill_key(next[k]) by {
                                    assert(pre[q] == next[q]);
                                }
                            }
                        }
                    }
                }
            }
            let ghost seen_before = strings_view(seen@);
            seen.push(key);
            proof {
                assert(strings_view(seen@) =~= seen_before.push(key@));
                seen_before.lemma_push_to_set_commute(key@);
                assert forall|i: int| 0 <= i < out@.len() implies strings_view(seen@).contains(#[trigger] skill_key(out@[i])) by {
                    if i == p {
                        assert(strings_view(seen@)[seen_before.len() as int] == key@);
                    } else {
                        let k = if i < p { i } else { i - 1 };
                        assert(out@[i] == before[k]);
                        assert(seen_before.contains(skill_key(before[k])));
                        let m = choose|m: int| 0 <= m < seen_before.len() && seen_before[m] == skill_key(before[k]);
                        assert(strings_view(seen@)[m] == skill_key(before[k]));
                    }
                }
            }
        }
        proof {
            done = done + 1;
        }
    }
    proof {
        assert(all.subrange(done, all.len() as int).len() == 0);
        assert(all.subrange(0, done) =~= all);
        assert(out@.no_duplicates()) by {
            assert forall|i: int, j: int| 0 <= i < out@.len() && 0 <= j < out@.len() && i != j implies out@[i] != out@[j] by {
                if i < j {
                    lemma_text_lt_asym(out@[i].name@, out@[j].name@);
                } else {
                    lemma_text_lt_asym(out@[j].name@, out@[i].name@);
                }
            }
        }
    }
    out
}

/// The skills kept never share a lookup key: each key keeps one skill.
pub proof fn lemma_kept_keys_distinct(found: Seq<Skill>, a: Skill, b: Skill)
    requires
        kept_skills(found).contains(a),
        kept_skills(found).contains(b),
        a != b,
    ensures
        skill_key(a) != skill_key(b),
{
    let ka = choose|k: int| 0 <= k < found.len() && found[k] == a && first_of_key(found, k);
    let kb = choose|k: int| 0 <= k < found.len() && found[k] == b && first_of_key(found, k);
    if ka < kb {
        assert(skill_key(found[ka]) != skill_key(found[kb]));
    } else if kb < ka {
        assert(skill_key(found[kb]) != skill_key(found[ka]));
    }
}

/// The skill roots in priority order: the built-in skills, the user's
/// skills directory and the project's (each only where it is a directory),
/// then any roots given.
pub open spec fn skills_roots_spec(
    builtin: Seq<char>,
    user_skills: Option<Seq<char>>,
    project_skills: Option<Seq<char>>,
    extra: Option<Seq<Seq<char>>>,
) -> Seq<Seq<char>> {
    seq![builtin] + (match user_skills {
        Some(u) => seq![u],
        None => Seq::empty(),
    }) + (match project_skills {
        Some(p) => seq![p],
        None => Seq::empty(),
    }) + (match extra {
        Some(e) => e,
        None => Seq::empty(),
    })
}

/// The user's skills directory under the configuration directory.
pub fn user_skills_dir(config_dir: &str) -> (r: String)
    ensures
        r@ == path_join(path_join(config_dir@, "kimi"@), "skills"@),
{
    let k = join_path(config_dir, "kimi");
    join_path(k.as_str(), "skills")
}

/// The project's skills directory under the work directory.
pub fn project_skills_dir(work_dir: &str) -> (r: String)
    ensures
        r@ == path_join(path_join(work_dir@, ".kimi"@), "skills"@),
{
    let k = join_path(work_dir, ".kimi");
    join_path(k.as_str(), "skills")
}

/// Lays out the skill roots (see `skills_roots_spec`); `user_skills` and
/// `project_skills` are given where those directories exist.
pub fn resolve_skills_roots(
    builtin: String,
    user_skills: Option<String>,
    project_skills: Option<String>,
    extra: Option<&Vec<String>>,
) -> (r: Vec<String>)
    ensures
        strings_view(r@) == skills_roots_spec(
            builtin@,
            match user_skills {
                Some(u) => Some(u@),
                None => None,
            },
            match project_skills {
                Some(p) => Some(p@),
                None => None,
            },
            match extra {
                Some(e) => Some(strings_view(e@)),
                None => None,
            },
        ),
{
    let ghost b = builtin@;
    let mut r: Vec<String> = Vec::new();
    r.push(builtin);
    let ghost r1 = strings_view(r@);
    assert(r1 =~= seq![b]);
    match user_skills {
        Some(u) => r.push(u),
        None => {},
    }
    match project_skills {
        Some(p) => r.push(p),
        None => {},
    }
    let ghost mid = strings_view(r@);
    match extra {
        Some(e) => {
            let mut i: usize = 0;
            while i < e.len()
                invariant
                    i <= e.len(),
                    strings_view(r@) == mid + strings_view(e@.subrange(0, i as int)),
                decreases e.len() - i,
            {
                let ghost before = strings_view(r@);
                r.push(e[i].clone());
                assert(strings_view(r@) =~= before.push(e@[i as int]@));
                assert(strings_view(e@.subrange(0, i + 1)) =~= strings_view(e@.subrange(0, i as int)).push(e@[i as int]@));
                i += 1;
            }
            assert(e@.subrange(0, e.len() as int) =~= e@);
        },
        None => {},
    }
    assert(strings_view(r@) =~= skills_roots_spec(
        b,
        match user_skills {
            Some(u) => Some(u@),
            None => None,
        },
        match project_skills {
            Some(p) => Some(p@),
            None => None,
        },
        match extra {
            Some(e) => Some(strings_view(e@)),
            None => None,
        },
    ));
    r
}

} // verus!
