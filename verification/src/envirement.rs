use std::collections::HashMap;
use std::time::SystemTime;
use vstd::prelude::*;
use vstd::string::StringExecFns;
use crate::parser::string_is;
use crate::parser::types::{AstNode, AstNodeV};

verus! {

broadcast use vstd::std_specs::hash::group_hash_axioms;

/// A background or foreground job, known by its id.
pub struct Job {
    pub id: usize,
}

#[verifier::external_type_specification]
#[verifier::external_body]
pub struct ExSystemTime(SystemTime);


/// The map that an association list stands for: a later entry for a key
/// replaces an earlier one.
pub open spec fn alist_map<V: View>(s: Seq<(String, V)>) -> Map<Seq<char>, V::V>
    decreases s.len(),
{
    if s.len() == 0 {
        Map::empty()
    } else {
        alist_map(s.drop_last()).insert(s.last().0@, s.last().1@)
    }
}

/// No key occurs twice in the list.
pub open spec fn keys_distinct<V>(s: Seq<(String, V)>) -> bool {
    forall|i: int, j: int| 0 <= i < j < s.len() ==> #[trigger] s[i].0@ != #[trigger] s[j].0@
}

pub proof fn lemma_alist_lookup<V: View>(s: Seq<(String, V)>, i: int)
    requires
        keys_distinct(s),
        0 <= i < s.len(),
    ensures
        alist_map(s).contains_key(s[i].0@),
        alist_map(s)[s[i].0@] == s[i].1@,
    decreases s.len(),
{
    if i < s.len() - 1 {
        let t = s.drop_last();
        assert(keys_distinct(t)) by {
            assert forall|a: int, b: int| 0 <= a < b < t.len() implies #[trigger] t[a].0@ != #[trigger] t[b].0@ by {
                assert(t[a] == s[a] && t[b] == s[b]);
            }
        }
        assert(t[i] == s[i]);
        lemma_alist_lookup(t, i);
        assert(s[i].0@ != s[s.len() - 1].0@);
    }
}

pub proof fn lemma_alist_absent<V: View>(s: Seq<(String, V)>, k: Seq<char>)
    requires
        forall|i: int| 0 <= i < s.len() ==> (#[trigger] s[i]).0@ != k,
    ensures
        !alist_map(s).contains_key(k),
    decreases s.len(),
{
    if s.len() > 0 {
        let t = s.drop_last();
        assert forall|i: int| 0 <= i < t.len() implies (#[trigger] t[i]).0@ != k by {
            assert(t[i] == s[i]);
        }
        lemma_alist_absent(t, k);
        assert(s[s.len() - 1].0@ != k);
    }
}

pub proof fn lemma_alist_update<V: View>(s: Seq<(String, V)>, i: int, x: (String, V))
    requires
        keys_distinct(s),
        0 <= i < s.len(),
        x.0@ == s[i].0@,
    ensures
        alist_map(s.update(i, x)) == alist_map(s).insert(x.0@, x.1@),
        keys_distinct(s.update(i, x)),
    decreases s.len(),
{
    let u = s.update(i, x);
    assert forall|a: int, b: int| 0 <= a < b < u.len() implies #[trigger] u[a].0@ != #[trigger] u[b].0@ by {
        assert(s[a].0@ != s[b].0@);
    }
    let t = s.drop_last();
    if i == s.len() - 1 {
        assert(u.drop_last() =~= t);
        assert(alist_map(u) =~= alist_map(s).insert(x.0@, x.1@));
    } else {
        assert(keys_distinct(t)) by {
            assert forall|a: int, b: int| 0 <= a < b < t.len() implies #[trigger] t[a].0@ != #[trigger] t[b].0@ by {
                assert(t[a] == s[a] && t[b] == s[b]);
            }
        }
        assert(t[i] == s[i]);
        lemma_alist_update(t, i, x);
        assert(u.drop_last() =~= t.update(i, x));
        assert(u.last() == s.last());
        assert(s.last().0@ != x.0@) by {
            assert(s[i].0@ != s[s.len() - 1].0@);
        }
        assert(alist_map(u) =~= alist_map(s).insert(x.0@, x.1@));
    }
}

pub proof fn lemma_alist_push<V: View>(s: Seq<(String, V)>, x: (String, V))
    requires
        keys_distinct(s),
        forall|i: int| 0 <= i < s.len() ==> (#[trigger] s[i]).0@ != x.0@,
    ensures
        alist_map(s.push(x)) == alist_map(s).insert(x.0@, x.1@),
        keys_distinct(s.push(x)),
{
    let u = s.push(x);
    assert(u.drop_last() =~= s);
    assert forall|a: int, b: int| 0 <= a < b < u.len() implies #[trigger] u[a].0@ != #[trigger] u[b].0@ by {
        if b < s.len() {
            assert(s[a].0@ != s[b].0@);
        } else {
            assert(u[a] == s[a]);
        }
    }
}

/// The entry for `key`, if any.
fn alist_get<'a, V: View>(list: &'a Vec<(String, V)>, key: &str) -> (r: Option<&'a V>)
    requires
        keys_distinct(list@),
    ensures
        match r {
            Some(v) => alist_map(list@).contains_key(key@) && alist_map(list@)[key@] == v@,
            None => !alist_map(list@).contains_key(key@),
        },
{
    let mut i: usize = 0;
    while i < list.len()
        invariant
            0 <= i <= list@.len(),
            keys_distinct(list@),
            forall|j: int| 0 <= j < i ==> (#[trigger] list@[j]).0@ != key@,
        decreases list@.len() - i,
    {
        if string_is(&list[i].0, key) {
            proof {
                lemma_alist_lookup(list@, i as int);
            }
            return Some(&list[i].1);
        }
        i = i + 1;
    }
    proof {
        lemma_alist_absent(list@, key@);
    }
    None
}

/// Sets the entry for `key` to `value`, replacing an existing one.
fn alist_set<V: View>(list: &mut Vec<(String, V)>, key: &str, value: V)
    requires
        keys_distinct(old(list)@),
    ensures
        keys_distinct(final(list)@),
        alist_map(final(list)@) == alist_map(old(list)@).insert(key@, value@),
{
    let mut i: usize = 0;
    while i < list.len()
        invariant
            0 <= i <= list@.len(),
            list@ == old(list)@,
            keys_distinct(list@),
            forall|j: int| 0 <= j < i ==> (#[trigger] list@[j]).0@ != key@,
        decreases list@.len() - i,
    {
        if string_is(&list[i].0, key) {
            let k = String::from_str(key);
            let ghost x = (k, value);
            proof {
                lemma_alist_update(list@, i as int, x);
            }
            list.set(i, (k, value));
            return;
        }
        i = i + 1;
    }
    let k = String::from_str(key);
    let ghost x = (k, value);
    proof {
        lemma_alist_push(list@, x);
    }
    list.push((k, value));
}

/// The variables, the arithmetic variables, the functions and the jobs of
/// a shell session, with its last exit status.
pub struct ShellEnv {
    variables: Vec<(String, String)>,
    arith_vars: Vec<(String, i64)>,
    functions: Vec<(String, AstNode)>,
    jobs: HashMap<usize, Job>,
    next_job_id: usize,
    last_status: i32,
    started_at: SystemTime,
}

/// The `PATH` given when the environment has none.
pub open spec fn with_default_path(m: Map<Seq<char>, Seq<char>>) -> Map<Seq<char>, Seq<char>> {
    if m.contains_key("PATH"@) {
        m
    } else {
        m.insert("PATH"@, "/usr/bin:/bin"@)
    }
}

impl ShellEnv {
    #[verifier::type_invariant]
    spec fn wf(self) -> bool {
        &&& keys_distinct(self.variables@)
        &&& keys_distinct(self.arith_vars@)
        &&& keys_distinct(self.functions@)
        &&& forall|k: usize| #[trigger] self.jobs@.contains_key(k) ==> k < self.next_job_id
    }

    /// The shell variables.
    pub closed spec fn vars(&self) -> Map<Seq<char>, Seq<char>> {
        alist_map(self.variables@)
    }

    /// The arithmetic variables.
    pub closed spec fn arith(&self) -> Map<Seq<char>, i64> {
        alist_map(self.arith_vars@)
    }

    /// The jobs by id.
    pub closed spec fn jobs(&self) -> Map<usize, Job> {
        self.jobs@
    }

    /// The id the next job will get.
    pub closed spec fn next_id(&self) -> usize {
        self.next_job_id
    }

    /// The last exit status.
    pub closed spec fn status(&self) -> i32 {
        self.last_status
    }

    /// The shell functions by name.
    pub closed spec fn funcs(&self) -> Map<Seq<char>, AstNodeV> {
        alist_map(self.functions@)
    }

    /// When the session started.
    pub closed spec fn start(&self) -> SystemTime {
        self.started_at
    }

    /// A new environment with the given variables (a later pair for a name
    /// replaces an earlier one) and `PATH` set to `/usr/bin:/bin` when
    /// missing; no arithmetic variables, functions or jobs, job ids from 1,
    /// status 0, and `started_at` as the start time.
    pub fn new(vars: Vec<(String, String)>, started_at: SystemTime) -> (env: Self)
        ensures
            env.vars() == with_default_path(alist_map(vars@)),
            env.arith() == Map::<Seq<char>, i64>::empty(),
            env.funcs() == Map::<Seq<char>, AstNodeV>::empty(),
            env.start() == started_at,
            env.jobs() == Map::<usize, Job>::empty(),
            env.next_id() == 1,
            env.status() == 0,
    {
        let mut variables: Vec<(String, String)> = Vec::new();
        let mut i: usize = 0;
        while i < vars.len()
            invariant
                0 <= i <= vars@.len(),
                keys_distinct(variables@),
                alist_map(variables@) == alist_map(vars@.subrange(0, i as int)),
            decreases vars@.len() - i,
        {
            let value = vars[i].1.clone();
            alist_set(&mut variables, vars[i].0.as_str(), value);
            assert(vars@.subrange(0, i + 1).drop_last() =~= vars@.subrange(0, i as int));
            i = i + 1;
        }
        assert(vars@.subrange(0, vars@.len() as int) =~= vars@);
        let has_path = match alist_get(&variables, "PATH") {
            Some(_) => true,
            None => false,
        };
        if !has_path {
            alist_set(&mut variables, "PATH", String::from_str("/usr/bin:/bin"));
        }
        let arith_vars: Vec<(String, i64)> = Vec::new();
        assert(alist_map(arith_vars@) =~= Map::<Seq<char>, i64>::empty());
        let functions: Vec<(String, AstNode)> = Vec::new();
        assert(alist_map(functions@) =~= Map::<Seq<char>, AstNodeV>::empty());
        ShellEnv {
            variables,
            arith_vars,
            functions,
            jobs: HashMap::new(),
            next_job_id: 1,
            last_status: 0,
            started_at,
        }
    }

    /// Sets a shell variable.
    pub fn set_var(&mut self, key: &str, value: &str)
        ensures
            final(self).vars() == old(self).vars().insert(key@, value@),
            final(self).arith() == old(self).arith(),
            final(self).jobs() == old(self).jobs(),
            final(self).next_id() == old(self).next_id(),
            final(self).status() == old(self).status(),
            final(self).funcs() == old(self).funcs(),
            final(self).start() == old(self).start(),
    {
        proof {
            use_type_invariant(&*self);
        }
        let mut variables: Vec<(String, String)> = Vec::new();
        std::mem::swap(&mut variables, &mut self.variables);
        alist_set(&mut variables, key, String::from_str(value));
        self.variables = variables;
    }

    /// The value of a shell variable, if set.
    pub fn get_var(&self, key: &str) -> (r: Option<&String>)
        ensures
            match r {
                Some(v) => self.vars().contains_key(key@) && self.vars()[key@] == v@,
                None => !self.vars().contains_key(key@),
            },
    {
        proof {
            use_type_invariant(self);
        }
        alist_get(&self.variables, key)
    }

    /// Sets an arithmetic variable.
    pub fn set_arith(&mut self, key: &str, value: i64)
        ensures
            final(self).arith() == old(self).arith().insert(key@, value),
            final(self).vars() == old(self).vars(),
            final(self).jobs() == old(self).jobs(),
            final(self).next_id() == old(self).next_id(),
            final(self).status() == old(self).status(),
            final(self).funcs() == old(self).funcs(),
            final(self).start() == old(self).start(),
    {
        proof {
            use_type_invariant(&*self);
        }
        let mut arith_vars: Vec<(String, i64)> = Vec::new();
        std::mem::swap(&mut arith_vars, &mut self.arith_vars);
        alist_set(&mut arith_vars, key, value);
        self.arith_vars = arith_vars;
    }

    /// The value of an arithmetic variable, if set.
    pub fn get_arith(&self, key: &str) -> (r: Option<i64>)
        ensures
            match r {
                Some(v) => self.arith().contains_key(key@) && self.arith()[key@] == v,
                None => !self.arith().contains_key(key@),
            },
    {
        proof {
            use_type_invariant(self);
        }
        match alist_get(&self.arith_vars, key) {
            Some(v) => Some(*v),
            None => None,
        }
    }

    /// Records a job under the next id, which it returns.
    pub fn add_job(&mut self, job: Job) -> (id: usize)
        requires
            old(self).next_id() < usize::MAX,
        ensures
            id == old(self).next_id(),
            !old(self).jobs().contains_key(id),
            final(self).next_id() == id + 1,
            final(self).jobs() == old(self).jobs().insert(id, Job { id }),
            final(self).vars() == old(self).vars(),
            final(self).arith() == old(self).arith(),
            final(self).status() == old(self).status(),
            final(self).funcs() == old(self).funcs(),
            final(self).start() == old(self).start(),
    {
        proof {
            use_type_invariant(&*self);
        }
        let mut job = job;
        let id = self.next_job_id;
        self.next_job_id = self.next_job_id + 1;
        job.id = id;
        let mut jobs: HashMap<usize, Job> = HashMap::new();
        std::mem::swap(&mut jobs, &mut self.jobs);
        jobs.insert(id, job);
        self.jobs = jobs;
        id
    }

    /// The job with this id, if any.
    pub fn get_job(&self, id: usize) -> (r: Option<&Job>)
        ensures
            match r {
                Some(j) => self.jobs().contains_key(id) && self.jobs()[id] == *j,
                None => !self.jobs().contains_key(id),
            },
    {
        self.jobs.get(&id)
    }

    /// Forgets the job with this id.
    pub fn remove_job(&mut self, id: usize)
        ensures
            final(self).jobs() == old(self).jobs().remove(id),
            final(self).vars() == old(self).vars(),
            final(self).arith() == old(self).arith(),
            final(self).next_id() == old(self).next_id(),
            final(self).status() == old(self).status(),
            final(self).funcs() == old(self).funcs(),
            final(self).start() == old(self).start(),
    {
        proof {
            use_type_invariant(&*self);
        }
        let mut jobs: HashMap<usize, Job> = HashMap::new();
        std::mem::swap(&mut jobs, &mut self.jobs);
        jobs.remove(&id);
        self.jobs = jobs;
    }

    /// Records the last exit status (`$?`).
    pub fn set_last_status(&mut self, status: i32)
        ensures
            final(self).status() == status,
            final(self).vars() == old(self).vars(),
            final(self).arith() == old(self).arith(),
            final(self).jobs() == old(self).jobs(),
            final(self).next_id() == old(self).next_id(),
            final(self).funcs() == old(self).funcs(),
            final(self).start() == old(self).start(),
    {
        proof {
            use_type_invariant(&*self);
        }
        self.last_status = status;
    }

    /// Defines (or redefines) a shell function.
    pub fn set_function(&mut self, name: &str, body: AstNode)
        ensures
            final(self).funcs() == old(self).funcs().insert(name@, body@),
            final(self).vars() == old(self).vars(),
            final(self).arith() == old(self).arith(),
            final(self).jobs() == old(self).jobs(),
            final(self).next_id() == old(self).next_id(),
            final(self).status() == old(self).status(),
            final(self).start() == old(self).start(),
    {
        proof {
            use_type_invariant(&*self);
        }
        let mut functions: Vec<(String, AstNode)> = Vec::new();
        std::mem::swap(&mut functions, &mut self.functions);
        alist_set(&mut functions, name, body);
        self.functions = functions;
    }

    /// The body of a shell function, if one has that name.
    pub fn get_function(&self, name: &str) -> (r: Option<&AstNode>)
        ensures
            match r {
                Some(b) => self.funcs().contains_key(name@) && self.funcs()[name@] == b@,
                None => !self.funcs().contains_key(name@),
            },
    {
        proof {
            use_type_invariant(self);
        }
        alist_get(&self.functions, name)
    }

    /// When the session started.
    pub fn started_at(&self) -> (r: &SystemTime)
        ensures
            *r == self.start(),
    {
        &self.started_at
    }

    /// The last exit status.
    pub fn get_last_status(&self) -> (r: i32)
        ensures
            r == self.status(),
    {
        self.last_status
    }
}

} // verus!

verus! {

/// Reading a variable right after setting it gives the value set, and
/// every other variable reads as before. (`set_var` turns `before` into an
/// environment whose variables are `before.vars().insert(key, value)`;
/// `get_var` reads `vars()`.)
pub proof fn law_get_var_after_set_var(before: ShellEnv, after: ShellEnv, key: Seq<char>, value: Seq<char>, other: Seq<char>)
    requires
        after.vars() == before.vars().insert(key, value),
    ensures
        after.vars().contains_key(key),
        after.vars()[key] == value,
        other != key ==> after.vars().contains_key(other) == before.vars().contains_key(other),
        other != key && before.vars().contains_key(other) ==> after.vars()[other] == before.vars()[other],
{
}

/// Reading a function right after defining it gives the body defined, and
/// every other function reads as before.
pub proof fn law_get_function_after_set_function(
    before: ShellEnv,
    after: ShellEnv,
    name: Seq<char>,
    body: AstNodeV,
    other: Seq<char>,
)
    requires
        after.funcs() == before.funcs().insert(name, body),
    ensures
        after.funcs().contains_key(name),
        after.funcs()[name] == body,
        other != name ==> after.funcs().contains_key(other) == before.funcs().contains_key(other),
        other != name && before.funcs().contains_key(other) ==> after.funcs()[other] == before.funcs()[other],
{
}

/// Reading an arithmetic variable right after setting it gives the value
/// set, and every other one reads as before.
pub proof fn law_get_arith_after_set_arith(before: ShellEnv, after: ShellEnv, key: Seq<char>, value: i64, other: Seq<char>)
    requires
        after.arith() == before.arith().insert(key, value),
    ensures
        after.arith().contains_key(key),
        after.arith()[key] == value,
        other != key ==> after.arith().contains_key(other) == before.arith().contains_key(other),
        other != key && before.arith().contains_key(other) ==> after.arith()[other] == before.arith()[other],
{
}

/// A job added is found under the id `add_job` returned, with that id,
/// and the jobs already there stay as they were.
pub proof fn law_add_job_then_get_job(before: ShellEnv, after: ShellEnv, id: usize, other: usize)
    requires
        !before.jobs().contains_key(id),
        after.jobs() == before.jobs().insert(id, Job { id }),
    ensures
        after.jobs().contains_key(id),
        after.jobs()[id].id == id,
        before.jobs().contains_key(other) ==> after.jobs().contains_key(other) && after.jobs()[other] == before.jobs()[other],
{
}

/// A job removed is no longer found; the other jobs stay.
pub proof fn law_get_job_after_remove_job(before: ShellEnv, after: ShellEnv, id: usize, other: usize)
    requires
        after.jobs() == before.jobs().remove(id),
    ensures
        !after.jobs().contains_key(id),
        other != id ==> after.jobs().contains_key(other) == before.jobs().contains_key(other),
        other != id && before.jobs().contains_key(other) ==> after.jobs()[other] == before.jobs()[other],
{
}

} // verus!
