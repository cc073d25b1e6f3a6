//! Skills: a directory holding a `SKILL.md` whose front matter names and
//! describes the skill.
pub mod flow;
pub mod merge;

use crate::error::KimiCliError;
use crate::text::{
    append_vec, chars_of, eq_vec, file_name, file_name_result, find_char_exec, find_char_from,
    find_sub_exec, find_sub_from, join_path, lemma_find_char_from, lemma_find_sub_from, lines_exec,
    lines_spec, path_join, starts_with, starts_with_exec, string_of, sub_vec, to_lowercase,
    to_lowercase_result, trim, trim_matches, trim_matches_exec, trim_range, trim_start, trim_vec,
    vecs_view,
};
use vstd::prelude::*;

verus! {

/// Skill type classification.
#[derive(Debug, Clone, Copy, PartialEq, Eq, Structural)]
pub enum SkillType {
    Standard,
    Flow,
}

impl Default for SkillType {
    fn default() -> (r: Self)
        ensures
            r == SkillType::Standard,
    {
        SkillType::Standard
    }
}

/// The skill type a name stands for: `standard` or `flow`.
pub open spec fn skill_type_spec(s: Seq<char>) -> Option<SkillType> {
    if s == "standard"@ {
        Some(SkillType::Standard)
    } else if s == "flow"@ {
        Some(SkillType::Flow)
    } else {
        None
    }
}

fn skill_type_of(v: &Vec<char>) -> (r: Option<SkillType>)
    ensures
        r == skill_type_spec(v@),
{
    if eq_vec(v, &chars_of("standard")) {
        Some(SkillType::Standard)
    } else if eq_vec(v, &chars_of("flow")) {
        Some(SkillType::Flow)
    } else {
        None
    }
}

impl SkillType {
    /// Parses a skill type name; any other name is a configuration error.
    pub fn from_name(s: &str) -> (r: Result<SkillType, KimiCliError>)
        ensures
            match skill_type_spec(s@) {
                Some(t) => r == Ok::<SkillType, KimiCliError>(t),
                None => r matches Err(KimiCliError::Config(m)) && m@ == "Invalid skill type: "@ + s@,
            },
    {
        match skill_type_of(&chars_of(s)) {
            Some(t) => Ok(t),
            None => {
                let mut m = chars_of("Invalid skill type: ");
                append_vec(&mut m, &chars_of(s));
                Err(KimiCliError::Config(string_of(&m)))
            },
        }
    }
}

/// Information about a single skill.
#[derive(Debug, Clone)]
pub struct Skill {
    pub name: String,
    pub description: String,
    pub skill_type: SkillType,
    pub dir: String,
    pub flow: Option<flow::Flow>,
}

pub open spec fn default_description() -> Seq<char> {
    "No description provided."@
}

impl Default for Skill {
    fn default() -> (r: Self)
        ensures
            r.name@ == Seq::<char>::empty(),
            r.description@ == default_description(),
            r.skill_type == SkillType::Standard,
            r.dir@ == Seq::<char>::empty(),
            r.flow is None,
    {
        Skill {
            name: String::new(),
            description: "No description provided.".to_string(),
            skill_type: SkillType::Standard,
            dir: String::new(),
            flow: None,
        }
    }
}

impl Skill {
    /// Path to the skill's `SKILL.md` file.
    pub fn skill_md_file(&self) -> (r: String)
        ensures
            r@ == path_join(self.dir@, "SKILL.md"@),
    {
        join_path(self.dir.as_str(), "SKILL.md")
    }
}

/// The built-in skills directory: `skills` under the directory the crate
/// was built from.
pub fn get_builtin_skills_dir(manifest_dir: &str) -> (r: String)
    ensures
        r@ == path_join(manifest_dir@, "skills"@),
{
    join_path(manifest_dir, "skills")
}

/// Normalizes a skill name for lookup: Unicode lower-casing.
pub fn normalize_skill_name(name: &str) -> (r: String)
    ensures
        r@ == to_lowercase_result(name@),
{
    to_lowercase(name)
}

/// The lookup key of a skill.
pub open spec fn skill_key(s: Skill) -> Seq<char> {
    to_lowercase_result(s.name@)
}

/// Each key occurs once in `r`.
#[verifier::opaque]
pub open spec fn idx_distinct(r: Seq<(Seq<char>, int)>) -> bool {
    forall|a: int, b: int| 0 <= a < b < r.len() ==> r[a].0 != r[b].0
}

/// Each entry of `r` holds the position of the last occurrence of its key
/// among the first `n` keys.
#[verifier::opaque]
pub open spec fn idx_last(r: Seq<(Seq<char>, int)>, keys: Seq<Seq<char>>, n: int) -> bool {
    forall|a: int|
        #![trigger r[a]]
        0 <= a < r.len() ==> {
            &&& 0 <= r[a].1 < n
            &&& r[a].0 == keys[r[a].1]
            &&& forall|k: int| r[a].1 < k < n ==> #[trigger] keys[k] != r[a].0
        }
}

/// Every one of the first `n` keys has an entry in `r`.
#[verifier::opaque]
pub open spec fn idx_complete(r: Seq<(Seq<char>, int)>, keys: Seq<Seq<char>>, n: int) -> bool {
    forall|x: int| 0 <= x < n ==> exists|a: int| 0 <= a < r.len() && r[a].0 == #[trigger] keys[x]
}

/// `r` indexes the first `n` keys: each key occurs once, with the position
/// of its last occurrence among them, and every key is there.
pub open spec fn index_ok(r: Seq<(Seq<char>, int)>, keys: Seq<Seq<char>>, n: int) -> bool {
    idx_distinct(r) && idx_last(r, keys, n) && idx_complete(r, keys, n)
}

pub open spec fn index_view(r: Seq<(String, usize)>) -> Seq<(Seq<char>, int)> {
    r.map_values(|p: (String, usize)| (p.0@, p.1 as int))
}

pub open spec fn skill_keys(skills: Seq<Skill>) -> Seq<Seq<char>> {
    skills.map_values(|s: Skill| skill_key(s))
}

proof fn lemma_index_empty(keys: Seq<Seq<char>>)
    ensures
        index_ok(Seq::empty(), keys, 0),
{
    reveal(idx_distinct);
    reveal(idx_last);
    reveal(idx_complete);
}

proof fn lemma_index_update(r: Seq<(Seq<char>, int)>, keys: Seq<Seq<char>>, n: int, a: int)
    requires
        0 <= n < keys.len(),
        index_ok(r, keys, n),
        0 <= a < r.len(),
        r[a].0 == keys[n],
    ensures
        index_ok(r.update(a, (keys[n], n)), keys, n + 1),
{
    let r2 = r.update(a, (keys[n], n));
    assert(idx_distinct(r2)) by {
        reveal(idx_distinct);
        assert forall|x: int, y: int| 0 <= x < y < r2.len() implies r2[x].0 != r2[y].0 by {
            assert(r2[x].0 == r[x].0);
            assert(r2[y].0 == r[y].0);
        }
    }
    assert(idx_complete(r2, keys, n + 1)) by {
        reveal(idx_complete);
        assert forall|x: int| 0 <= x < n + 1 implies exists|b: int| 0 <= b < r2.len() && r2[b].0 == #[trigger] keys[x] by {
            if x < n {
                let b0 = choose|b: int| 0 <= b < r.len() && r[b].0 == keys[x];
                assert(r2[b0].0 == r[b0].0);
            } else {
                assert(r2[a].0 == keys[x]);
            }
        }
    }
    assert(idx_last(r2, keys, n + 1)) by {
        reveal(idx_last);
        reveal(idx_distinct);
        assert forall|c: int| #![trigger r2[c]] 0 <= c < r2.len() implies {
            &&& 0 <= r2[c].1 < n + 1
            &&& r2[c].0 == keys[r2[c].1]
            &&& forall|k: int| r2[c].1 < k < n + 1 ==> #[trigger] keys[k] != r2[c].0
        } by {
            if c != a {
                assert(r2[c] == r[c]);
                assert(r[c].0 != r[a].0);
            }
        }
    }
}

proof fn lemma_index_push(r: Seq<(Seq<char>, int)>, keys: Seq<Seq<char>>, n: int)
    requires
        0 <= n < keys.len(),
        index_ok(r, keys, n),
        forall|b: int| 0 <= b < r.len() ==> r[b].0 != keys[n],
    ensures
        index_ok(r.push((keys[n], n)), keys, n + 1),
{
    let r2 = r.push((keys[n], n));
    assert(idx_distinct(r2)) by {
        reveal(idx_distinct);
        assert forall|x: int, y: int| 0 <= x < y < r2.len() implies r2[x].0 != r2[y].0 by {
            assert(r2[x].0 == r[x].0);
        }
    }
    assert(idx_complete(r2, keys, n + 1)) by {
        reveal(idx_complete);
        assert forall|x: int| 0 <= x < n + 1 implies exists|b: int| 0 <= b < r2.len() && r2[b].0 == #[trigger] keys[x] by {
            if x < n {
                let b0 = choose|b: int| 0 <= b < r.len() && r[b].0 == keys[x];
                assert(r2[b0] == r[b0]);
            } else {
                assert(r2[r.len() as int].0 == keys[x]);
            }
        }
    }
    assert(idx_last(r2, keys, n + 1)) by {
        reveal(idx_last);
        assert forall|c: int| #![trigger r2[c]] 0 <= c < r2.len() implies {
            &&& 0 <= r2[c].1 < n + 1
            &&& r2[c].0 == keys[r2[c].1]
            &&& forall|k: int| r2[c].1 < k < n + 1 ==> #[trigger] keys[k] != r2[c].0
        } by {
            if c < r.len() {
                assert(r2[c] == r[c]);
            }
        }
    }
}

/// Builds a lookup table for skills by normalized name: one entry per
/// distinct key, mapping it to the position of the last skill with that key
/// (see `index_ok`).
pub fn index_skills(skills: &[Skill]) -> (r: Vec<(String, usize)>)
    ensures
        index_ok(index_view(r@), skill_keys(skills@), skills@.len() as int),
{
    let ghost keys = skill_keys(skills@);
    let mut r: Vec<(String, usize)> = Vec::new();
    assert(index_view(r@) =~= Seq::<(Seq<char>, int)>::empty());
    proof {
        lemma_index_empty(keys);
    }
    let mut i: usize = 0;
    while i < skills.len()
        invariant
            i <= skills.len(),
            keys == skill_keys(skills@),
            index_ok(index_view(r@), keys, i as int),
        decreases skills.len() - i,
    {
        let key = normalize_skill_name(skills[i].name.as_str());
        assert(key@ == keys[i as int]);
        let ghost old_v = index_view(r@);
        match find_key(&r, &key) {
            Some(a) => {
                assert(old_v[a as int].0 == key@);
                let k = r[a].0.clone();
                r.set(a, (k, i));
                proof {
                    lemma_index_update(old_v, keys, i as int, a as int);
                    assert(index_view(r@) =~= old_v.update(a as int, (keys[i as int], i as int)));
                }
            },
            None => {
                assert forall|b: int| 0 <= b < old_v.len() implies old_v[b].0 != keys[i as int] by {
                    assert(old_v[b].0 == r@[b].0@);
                }
                r.push((key, i));
                proof {
                    lemma_index_push(old_v, keys, i as int);
                    assert(index_view(r@) =~= old_v.push((keys[i as int], i as int)));
                }
            },
        }
        i += 1;
    }
    r
}

/// Position of the entry with the given key.
fn find_key(r: &Vec<(String, usize)>, key: &String) -> (f: Option<usize>)
    ensures
        match f {
            Some(a) => a < r@.len() && r@[a as int].0@ == key@,
            None => forall|b: int| 0 <= b < r@.len() ==> r@[b].0@ != key@,
        },
{
    let mut a: usize = 0;
    while a < r.len()
        invariant
            a <= r.len(),
            forall|b: int| 0 <= b < a ==> r@[b].0@ != key@,
        decreases r.len() - a,
    {
        if r[a].0 == *key {
            return Some(a);
        }
        a += 1;
    }
    None
}

/// What a front-matter value reads as: trimmed, then without surrounding
/// double and then single quotes.
pub open spec fn front_value(v: Seq<char>) -> Seq<char> {
    trim_matches(trim_matches(trim(v), '"'), '\'')
}

/// Name, description and type read so far.
pub type SkillMeta = (Seq<char>, Seq<char>, SkillType);

/// One front-matter line `key: value` read into the metadata; `name`,
/// `description` and `type` are known keys (an unknown type reads as
/// `standard`), other lines are ignored.
pub open spec fn front_line(st: SkillMeta, line: Seq<char>) -> SkillMeta {
    let l = trim(line);
    match find_char_from(l, ':', 0) {
        None => st,
        Some(i) => {
            let key = trim(l.subrange(0, i));
            let value = front_value(l.subrange(i + 1, l.len() as int));
            if key == "name"@ {
                (value, st.1, st.2)
            } else if key == "description"@ {
                (st.0, value, st.2)
            } else if key == "type"@ {
                (
                    st.0,
                    st.1,
                    match skill_type_spec(value) {
                        Some(t) => t,
                        None => SkillType::Standard,
                    },
                )
            } else {
                st
            }
        },
    }
}

proof fn lemma_first_colon(k: Seq<char>, v: Seq<char>, i: int)
    requires
        0 <= i <= k.len(),
        !k.contains(':'),
    ensures
        find_char_from(k + ":"@ + v, ':', i) == Some(k.len() as int),
    decreases k.len() - i,
{
    let l = k + ":"@ + v;
    reveal_strlit(":");
    assert(l.len() == k.len() + 1 + v.len());
    assert(l[k.len() as int] == ':');
    if i < k.len() {
        assert(l[i] == k[i]);
        if l[i] == ':' {
            assert(k.contains(':'));
        }
        lemma_first_colon(k, v, i + 1);
    }
}

/// A front-matter line `key: value` gives the key the whole text after the
/// first `:`, further colons included (trimmed and unquoted): for the
/// `description` key the description becomes that text, the rest stays.
pub proof fn lemma_front_value_is_rest_of_line(st: SkillMeta, k: Seq<char>, v: Seq<char>)
    requires
        !k.contains(':'),
        trim(k + ":"@ + v) == k + ":"@ + v,
        trim(k) == "description"@,
    ensures
        front_line(st, k + ":"@ + v) == (st.0, front_value(v), st.2),
{
    let l = k + ":"@ + v;
    lemma_first_colon(k, v, 0);
    assert(l.subrange(0, k.len() as int) =~= k);
    assert(l.subrange(k.len() as int + 1, l.len() as int) =~= v) by {
        reveal_strlit(":");
    }
    reveal_strlit("name");
    reveal_strlit("description");
    assert("description"@[0] != "name"@[0]);
}

/// The same for the `name` key: the name becomes the whole text after the
/// first `:`.
pub proof fn lemma_front_name_is_rest_of_line(st: SkillMeta, k: Seq<char>, v: Seq<char>)
    requires
        !k.contains(':'),
        trim(k + ":"@ + v) == k + ":"@ + v,
        trim(k) == "name"@,
    ensures
        front_line(st, k + ":"@ + v) == (front_value(v), st.1, st.2),
{
    let l = k + ":"@ + v;
    lemma_first_colon(k, v, 0);
    assert(l.subrange(0, k.len() as int) =~= k);
    assert(l.subrange(k.len() as int + 1, l.len() as int) =~= v) by {
        reveal_strlit(":");
    }
}

pub open spec fn front_lines(ls: Seq<Seq<char>>, k: int, st: SkillMeta) -> SkillMeta
    decreases ls.len() - k,
{
    if k < 0 || k >= ls.len() {
        st
    } else {
        front_lines(ls, k + 1, front_line(st, ls[k]))
    }
}

/// The skill's name before front matter: the directory's name, or `unknown`.
pub open spec fn dir_name(dir: Seq<char>) -> Seq<char> {
    match file_name_result(dir) {
        Some(n) => n,
        None => "unknown"@,
    }
}

/// The metadata of a `SKILL.md`: defaults, overridden by a front matter
/// that opens the (left-trimmed) text with `---` and closes at a line
/// starting with `---`.
pub open spec fn skill_meta_spec(content: Seq<char>, dir: Seq<char>) -> SkillMeta {
    let init = (dir_name(dir), default_description(), SkillType::Standard);
    let t = trim_start(content);
    if starts_with(t, "---"@) {
        let rest = t.subrange(3, t.len() as int);
        match find_sub_from(rest, "\n---"@, 0) {
            Some(end) => front_lines(lines_spec(rest.subrange(0, end)), 0, init),
            None => init,
        }
    } else {
        init
    }
}

fn front_line_exec(name: &mut Vec<char>, desc: &mut Vec<char>, kind: &mut SkillType, line: &Vec<char>)
    ensures
        (final(name)@, final(desc)@, *final(kind)) == front_line((old(name)@, old(desc)@, *old(kind)), line@),
{
    let l = trim_vec(line);
    proof {
        lemma_find_char_from(l@, ':', 0);
    }
    match find_char_exec(&l, ':', 0) {
        None => {},
        Some(i) => {
            let key = trim_vec(&sub_vec(&l, 0, i));
            let value = trim_matches_exec(
                &trim_matches_exec(&trim_vec(&sub_vec(&l, i + 1, l.len())), '"'),
                '\'',
            );
            if eq_vec(&key, &chars_of("name")) {
                *name = value;
            } else if eq_vec(&key, &chars_of("description")) {
                *desc = value;
            } else if eq_vec(&key, &chars_of("type")) {
                *kind = match skill_type_of(&value) {
                    Some(t) => t,
                    None => SkillType::Standard,
                };
            }
        },
    }
}

/// Parses `SKILL.md` contents: name, description and type come from the
/// front matter (see `skill_meta_spec`); the skill lives in `dir_path`.
pub fn parse_skill_text(content: &str, dir_path: &str) -> (r: Result<Skill, KimiCliError>)
    ensures
        r matches Ok(s) && (s.name@, s.description@, s.skill_type) == skill_meta_spec(content@, dir_path@)
            && s.dir@ == dir_path@ && s.flow is None,
{
    let mut name = match file_name(dir_path) {
        Some(n) => chars_of(n.as_str()),
        None => chars_of("unknown"),
    };
    let mut desc = chars_of("No description provided.");
    let mut kind = SkillType::Standard;
    let cv = chars_of(content);
    let (a, _) = trim_range(&cv, 0, cv.len());
    let t = sub_vec(&cv, a, cv.len());
    assert(cv@.subrange(0, cv.len() as int) =~= content@);
    let dashes = chars_of("---");
    if starts_with_exec(&t, &dashes) {
        proof {
            reveal_strlit("---");
        }
        let rest = sub_vec(&t, 3, t.len());
        let marker = chars_of("\n---");
        match find_sub_exec(&rest, &marker) {
            Some(end) => {
                let ls = lines_exec(&sub_vec(&rest, 0, end));
                let ghost lv = vecs_view(ls@);
                let mut k: usize = 0;
                while k < ls.len()
                    invariant
                        k <= ls.len(),
                        lv == vecs_view(ls@),
                        front_lines(lv, 0, (dir_name(dir_path@), default_description(), SkillType::Standard))
                            == front_lines(lv, k as int, (name@, desc@, kind)),
                    decreases ls.len() - k,
                {
                    assert(lv[k as int] == ls@[k as int]@);
                    front_line_exec(&mut name, &mut desc, &mut kind, &ls[k]);
                    k += 1;
                }
            },
            None => {},
        }
    }
    Ok(Skill {
        name: string_of(&name),
        description: string_of(&desc),
        skill_type: kind,
        dir: dir_path.to_string(),
        flow: None,
    })
}

} // verus!
