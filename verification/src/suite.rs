//! A test suite: the tests in the order they were found, and the skills keyed
//! by name, where a later skill of the same name replaces an earlier one.
use vstd::prelude::*;
use crate::types::{PromptTest, Skill, SkillView};
use crate::text::{copy_opt, copy_strings};

verus! {

/// Whether some skill in `skills` has the name `name`.
pub open spec fn has_skill(skills: Seq<Skill>, name: Seq<char>) -> bool {
    exists|i: int| 0 <= i < skills.len() && (#[trigger] skills[i]).name@ == name
}

/// No two skills in `skills` share a name.
pub open spec fn names_distinct(skills: Seq<Skill>) -> bool {
    forall|i: int, j: int|
        0 <= i < skills.len() && 0 <= j < skills.len() && i != j ==> (#[trigger] skills[i]).name@
            != (#[trigger] skills[j]).name@
}

/// The skills of `skills` keyed by their names.
pub open spec fn skill_map(skills: Seq<Skill>) -> Map<Seq<char>, SkillView> {
    Map::new(
        |k: Seq<char>| has_skill(skills, k),
        |k: Seq<char>| skills[choose|i: int| 0 <= i < skills.len() && (#[trigger] skills[i]).name@ == k]@,
    )
}

/// What a [`TestSuite`] holds: its tests in order, and its skills by name.
pub struct TestSuiteView {
    pub tests: Seq<PromptTest>,
    pub skills: Map<Seq<char>, SkillView>,
}

/// All loaded content from a moderac-tests directory.
#[derive(Debug)]
pub struct TestSuite {
    tests: Vec<PromptTest>,
    skills: Vec<Skill>,
}

/// In a list of skills with distinct names, each skill is found under its own
/// name.
pub proof fn lemma_lookup(skills: Seq<Skill>, i: int)
    requires
        names_distinct(skills),
        0 <= i < skills.len(),
    ensures
        skill_map(skills).contains_key(skills[i].name@),
        skill_map(skills)[skills[i].name@] == skills[i]@,
{
    let k = skills[i].name@;
    assert(has_skill(skills, k));
    let j = choose|j: int| 0 <= j < skills.len() && (#[trigger] skills[j]).name@ == k;
    assert(j == i);
}

proof fn lemma_update(old: Seq<Skill>, i: int, s: Skill)
    requires
        names_distinct(old),
        0 <= i < old.len(),
        old[i].name@ == s.name@,
    ensures
        names_distinct(old.update(i, s)),
        skill_map(old.update(i, s)) == skill_map(old).insert(s.name@, s@),
{
    let new = old.update(i, s);
    assert(names_distinct(new)) by {
        assert forall|a: int, b: int|
            0 <= a < new.len() && 0 <= b < new.len() && a != b implies (#[trigger] new[a]).name@
            != (#[trigger] new[b]).name@ by {
            if a != i && b != i {
                assert(old[a].name@ != old[b].name@);
            } else if a == i {
                assert(old[i].name@ != old[b].name@);
            } else {
                assert(old[a].name@ != old[i].name@);
            }
        }
    }
    let m_new = skill_map(new);
    let m_old = skill_map(old).insert(s.name@, s@);
    assert forall|k: Seq<char>| #[trigger] m_new.contains_key(k) == m_old.contains_key(k) by {
        if has_skill(new, k) {
            let j = choose|j: int| 0 <= j < new.len() && (#[trigger] new[j]).name@ == k;
            if j != i {
                assert(old[j].name@ == k);
            }
        }
        if has_skill(old, k) {
            let j = choose|j: int| 0 <= j < old.len() && (#[trigger] old[j]).name@ == k;
            assert(new[j].name@ == k);
        }
        if k == s.name@ {
            assert(new[i].name@ == k);
        }
    }
    assert forall|k: Seq<char>| m_new.contains_key(k) implies #[trigger] m_new[k] == m_old[k] by {
        let j = choose|j: int| 0 <= j < new.len() && (#[trigger] new[j]).name@ == k;
        lemma_lookup(new, j);
        if j != i {
            assert(old[j].name@ == k);
            lemma_lookup(old, j);
        }
    }
    assert(m_new =~= m_old);
}

proof fn lemma_push(old: Seq<Skill>, s: Skill)
    requires
        names_distinct(old),
        !has_skill(old, s.name@),
    ensures
        names_distinct(old.push(s)),
        skill_map(old.push(s)) == skill_map(old).insert(s.name@, s@),
{
    let new = old.push(s);
    let n = old.len() as int;
    assert(names_distinct(new)) by {
        assert forall|a: int, b: int|
            0 <= a < new.len() && 0 <= b < new.len() && a != b implies (#[trigger] new[a]).name@
            != (#[trigger] new[b]).name@ by {
            if a != n && b != n {
                assert(old[a].name@ != old[b].name@);
            } else if a == n {
                assert(old[b].name@ != s.name@);
            } else {
                assert(old[a].name@ != s.name@);
            }
        }
    }
    let m_new = skill_map(new);
    let m_old = skill_map(old).insert(s.name@, s@);
    assert forall|k: Seq<char>| #[trigger] m_new.contains_key(k) == m_old.contains_key(k) by {
        if has_skill(new, k) {
            let j = choose|j: int| 0 <= j < new.len() && (#[trigger] new[j]).name@ == k;
            if j != n {
                assert(old[j].name@ == k);
            }
        }
        if has_skill(old, k) {
            let j = choose|j: int| 0 <= j < old.len() && (#[trigger] old[j]).name@ == k;
            assert(new[j].name@ == k);
        }
        if k == s.name@ {
            assert(new[n].name@ == k);
        }
    }
    assert forall|k: Seq<char>| m_new.contains_key(k) implies #[trigger] m_new[k] == m_old[k] by {
        let j = choose|j: int| 0 <= j < new.len() && (#[trigger] new[j]).name@ == k;
        lemma_lookup(new, j);
        if j != n {
            assert(old[j].name@ == k);
            lemma_lookup(old, j);
        }
    }
    assert(m_new =~= m_old);
}

/// The index of the skill named `name` in `skills`, if there is one.
fn position_of(skills: &Vec<Skill>, name: &String) -> (r: Option<usize>)
    ensures
        r matches Some(i) ==> i < skills.len() && skills@[i as int].name@ == name@,
        r is None ==> !has_skill(skills@, name@),
{
    let mut i: usize = 0;
    while i < skills.len()
        invariant
            i <= skills.len(),
            forall|j: int| 0 <= j < i ==> (#[trigger] skills@[j]).name@ != name@,
        decreases skills.len() - i,
    {
        if skills[i].name.eq(name) {
            return Some(i);
        }
        i = i + 1;
    }
    None
}

impl View for TestSuite {
    type V = TestSuiteView;

    closed spec fn view(&self) -> TestSuiteView {
        TestSuiteView { tests: self.tests@, skills: skill_map(self.skills@) }
    }
}

impl TestSuite {
    /// The suite's invariant: skill names are distinct.
    #[verifier::type_invariant]
    spec fn inv(&self) -> bool {
        names_distinct(self.skills@)
    }

    /// An empty suite.
    pub fn new() -> (s: Self)
        ensures
            s@.tests.len() == 0,
            s@.skills == Map::<Seq<char>, SkillView>::empty(),
    {
        let s = TestSuite { tests: Vec::new(), skills: Vec::new() };
        assert(s@.skills =~= Map::<Seq<char>, SkillView>::empty());
        s
    }

    /// The tests, in the order they were added.
    pub fn tests(&self) -> (r: &Vec<PromptTest>)
        ensures
            r@ == self@.tests,
    {
        &self.tests
    }

    /// The skills, each once under its own name (in no promised order).
    pub fn skills(&self) -> (r: &Vec<Skill>)
        ensures
            names_distinct(r@),
            skill_map(r@) == self@.skills,
    {
        proof {
            use_type_invariant(self);
        }
        &self.skills
    }

    /// Appends a test.
    pub fn push_test(&mut self, test: PromptTest)
        ensures
            final(self)@.tests == old(self)@.tests.push(test),
            final(self)@.skills == old(self)@.skills,
    {
        proof {
            use_type_invariant(&*self);
        }
        let mut tests: Vec<PromptTest> = Vec::new();
        std::mem::swap(&mut tests, &mut self.tests);
        tests.push(test);
        self.tests = tests;
    }

    /// Adds a skill under its name, replacing any skill of the same name.
    pub fn insert_skill(&mut self, skill: Skill)
        ensures
            final(self)@.tests == old(self)@.tests,
            final(self)@.skills == old(self)@.skills.insert(skill@.name, skill@),
    {
        proof {
            use_type_invariant(&*self);
        }
        let found = position_of(&self.skills, &skill.name);
        let ghost orig = self.skills@;
        let mut skills: Vec<Skill> = Vec::new();
        std::mem::swap(&mut skills, &mut self.skills);
        match found {
            Some(i) => {
                proof {
                    lemma_update(orig, i as int, skill);
                }
                skills.set(i, skill);
            },
            None => {
                proof {
                    lemma_push(orig, skill);
                }
                skills.push(skill);
            },
        }
        self.skills = skills;
    }

    /// The skill of the given name, if the suite has one.
    pub fn get_skill(&self, name: &String) -> (r: Option<&Skill>)
        ensures
            r matches Some(s) ==> self@.skills.contains_key(name@) && self@.skills[name@] == s@,
            r is None ==> !self@.skills.contains_key(name@),
    {
        proof {
            use_type_invariant(self);
        }
        let mut i: usize = 0;
        while i < self.skills.len()
            invariant
                i <= self.skills.len(),
                names_distinct(self.skills@),
                forall|j: int| 0 <= j < i ==> (#[trigger] self.skills@[j]).name@ != name@,
            decreases self.skills.len() - i,
        {
            if self.skills[i].name.eq(name) {
                proof {
                    lemma_lookup(self.skills@, i as int);
                }
                return Some(&self.skills[i]);
            }
            i = i + 1;
        }
        None
    }
}

proof fn lemma_same_skills(a: Seq<Skill>, b: Seq<Skill>)
    requires
        names_distinct(b),
        a.len() == b.len(),
        forall|k: int| 0 <= k < b.len() ==> (#[trigger] a[k])@ == b[k]@,
    ensures
        names_distinct(a),
        skill_map(a) == skill_map(b),
{
    assert forall|i: int, j: int|
        0 <= i < a.len() && 0 <= j < a.len() && i != j implies (#[trigger] a[i]).name@
        != (#[trigger] a[j]).name@ by {
        assert(a[i]@ == b[i]@ && a[j]@ == b[j]@);
        assert(b[i].name@ != b[j].name@);
    }
    assert forall|k: Seq<char>| #[trigger] skill_map(a).contains_key(k) == skill_map(b).contains_key(k) by {
        if has_skill(a, k) {
            let i = choose|i: int| 0 <= i < a.len() && (#[trigger] a[i]).name@ == k;
            assert(a[i]@ == b[i]@);
            assert(b[i].name@ == k);
        }
        if has_skill(b, k) {
            let i = choose|i: int| 0 <= i < b.len() && (#[trigger] b[i]).name@ == k;
            assert(a[i]@ == b[i]@);
            assert(a[i].name@ == k);
        }
    }
    assert forall|k: Seq<char>| skill_map(a).contains_key(k) implies #[trigger] skill_map(a)[k]
        == skill_map(b)[k] by {
        let i = choose|i: int| 0 <= i < a.len() && (#[trigger] a[i]).name@ == k;
        assert(a[i]@ == b[i]@);
        lemma_lookup(a, i);
        lemma_lookup(b, i);
    }
    assert(skill_map(a) =~= skill_map(b));
}

fn copy_test(t: &PromptTest) -> (r: PromptTest)
    ensures
        r@ == t@,
{
    PromptTest {
        name: t.name.clone(),
        tags: copy_strings(&t.tags),
        skills: copy_strings(&t.skills),
        prompt: t.prompt.clone(),
        expected: copy_opt(&t.expected),
    }
}

fn copy_skill(s: &Skill) -> (r: Skill)
    ensures
        r@ == s@,
{
    Skill { name: s.name.clone(), description: copy_opt(&s.description), body: s.body.clone() }
}

impl Clone for TestSuite {
    /// A copy of the suite: the same tests in the same order and the same
    /// skills under the same names.
    fn clone(&self) -> (r: Self)
        ensures
            r@.tests.len() == self@.tests.len(),
            forall|i: int| 0 <= i < self@.tests.len() ==> (#[trigger] r@.tests[i])@ == self@.tests[i]@,
            r@.skills == self@.skills,
    {
        proof {
            use_type_invariant(self);
        }
        let mut tests: Vec<PromptTest> = Vec::new();
        let mut i: usize = 0;
        while i < self.tests.len()
            invariant
                i <= self.tests.len(),
                tests.len() == i,
                forall|k: int| 0 <= k < i ==> (#[trigger] tests@[k])@ == self.tests@[k]@,
            decreases self.tests.len() - i,
        {
            tests.push(copy_test(&self.tests[i]));
            i = i + 1;
        }
        let mut skills: Vec<Skill> = Vec::new();
        let mut j: usize = 0;
        while j < self.skills.len()
            invariant
                j <= self.skills.len(),
                names_distinct(self.skills@),
                skills.len() == j,
                forall|k: int| 0 <= k < j ==> (#[trigger] skills@[k])@ == self.skills@[k]@,
            decreases self.skills.len() - j,
        {
            skills.push(copy_skill(&self.skills[j]));
            j = j + 1;
        }
        proof {
            lemma_same_skills(skills@, self.skills@);
        }
        TestSuite { tests, skills }
    }
}

impl Default for TestSuite {
    fn default() -> (s: Self)
        ensures
            s@.tests.len() == 0,
            s@.skills == Map::<Seq<char>, SkillView>::empty(),
    {
        TestSuite::new()
    }
}

} // verus!
