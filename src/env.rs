use vstd::prelude::*;

verus! {

/// An environment as an ordered list of name / value pairs.
pub type EnvList = Vec<(String, String)>;

/// The mapping that an environment list stands for: a later entry for a name
/// wins over an earlier one.
pub open spec fn env_map(s: Seq<(String, String)>) -> Map<Seq<char>, Seq<char>>
    decreases s.len(),
{
    if s.len() == 0 {
        Map::empty()
    } else {
        env_map(s.drop_last()).insert(s.last().0@, s.last().1@)
    }
}

/// No name occurs twice in the list.
pub open spec fn keys_unique(s: Seq<(String, String)>) -> bool {
    forall|i: int, j: int| 0 <= i < j < s.len() ==> s[i].0@ != s[j].0@
}

proof fn lemma_env_map_push(s: Seq<(String, String)>, e: (String, String))
    ensures
        env_map(s.push(e)) == env_map(s).insert(e.0@, e.1@),
{
    assert(s.push(e).drop_last() == s);
}

proof fn lemma_env_map_take_step(s: Seq<(String, String)>, i: int)
    requires
        0 <= i < s.len(),
    ensures
        env_map(s.take(i + 1)) == env_map(s.take(i)).insert(s[i].0@, s[i].1@),
{
    assert(s.take(i + 1).drop_last() == s.take(i));
}

/// Whether no name occurs twice in `env`.
pub fn has_unique_keys(env: &EnvList) -> (r: bool)
    ensures
        r == keys_unique(env@),
{
    let n = env.len();
    let mut i: usize = 0;
    while i < n
        invariant
            n == env@.len(),
            i <= n,
            forall|a: int, b: int| 0 <= a < b < n && a < i ==> env@[a].0@ != env@[b].0@,
        decreases n - i,
    {
        let mut j: usize = i + 1;
        while j < n
            invariant
                n == env@.len(),
                i < n,
                i + 1 <= j <= n,
                forall|a: int, b: int| 0 <= a < b < n && a < i ==> env@[a].0@ != env@[b].0@,
                forall|b: int| i < b < j ==> env@[i as int].0@ != env@[b].0@,
            decreases n - j,
        {
            if env[i].0 == env[j].0 {
                return false;
            }
            j = j + 1;
        }
        i = i + 1;
    }
    true
}

/// Whether `key` is the name of some entry of `env`.
pub fn has_key(env: &EnvList, key: &String) -> (r: bool)
    ensures
        r == env_map(env@).dom().contains(key@),
{
    let mut i: usize = 0;
    while i < env.len()
        invariant
            i <= env@.len(),
            !env_map(env@.take(i as int)).dom().contains(key@),
        decreases env@.len() - i,
    {
        proof {
            lemma_env_map_take_step(env@, i as int);
        }
        if env[i].0 == *key {
            assert(env@[i as int].0@ == key@);
            assert(env@.take(env@.len() as int) == env@);
            proof {
                lemma_env_map_suffix_keeps_key(env@, i as int + 1, key@);
            }
            return true;
        }
        i = i + 1;
    }
    assert(env@.take(env@.len() as int) == env@);
    false
}

proof fn lemma_env_map_suffix_keeps_key(s: Seq<(String, String)>, i: int, k: Seq<char>)
    requires
        0 <= i <= s.len(),
        env_map(s.take(i)).dom().contains(k),
    ensures
        env_map(s).dom().contains(k),
    decreases s.len() - i,
{
    if i < s.len() {
        lemma_env_map_take_step(s, i);
        lemma_env_map_suffix_keeps_key(s, i + 1, k);
    } else {
        assert(s.take(i) == s);
    }
}

proof fn lemma_entry_key_in_map(s: Seq<(String, String)>, a: int)
    requires
        0 <= a < s.len(),
    ensures
        env_map(s).dom().contains(s[a].0@),
{
    lemma_env_map_take_step(s, a);
    lemma_env_map_suffix_keeps_key(s, a + 1, s[a].0@);
}

/// The environment a child is started with: `overrides` laid over `parent`.
/// A name set in `overrides` takes its value from there; every other name
/// keeps the value that `parent` gives it.
pub fn overlay_env(parent: &EnvList, overrides: &EnvList) -> (r: EnvList)
    ensures
        env_map(r@) == env_map(parent@).union_prefer_right(env_map(overrides@)),
        keys_unique(parent@) && keys_unique(overrides@) ==> keys_unique(r@),
{
    let ghost over = env_map(overrides@);
    let mut r: EnvList = Vec::new();
    let mut i: usize = 0;
    while i < parent.len()
        invariant
            i <= parent@.len(),
            over == env_map(overrides@),
            env_map(r@) == env_map(parent@.take(i as int)).remove_keys(over.dom()),
            forall|a: int| 0 <= a < r@.len() ==> !over.dom().contains(#[trigger] r@[a].0@),
            forall|a: int|
                0 <= a < r@.len() ==> exists|b: int|
                    0 <= b < i && #[trigger] r@[a].0@ == parent@[b].0@,
            keys_unique(parent@) ==> (forall|a: int, b: int|
                0 <= a < b < r@.len() ==> r@[a].0@ != r@[b].0@),
        decreases parent@.len() - i,
    {
        proof {
            lemma_env_map_take_step(parent@, i as int);
        }
        let ghost before = r@;
        if !has_key(overrides, &parent[i].0) {
            let e = (parent[i].0.clone(), parent[i].1.clone());
            r.push(e);
            proof {
                lemma_env_map_push(before, e);
                assert(r@[r@.len() - 1].0@ == parent@[i as int].0@);
                assert forall|a: int|
                    0 <= a < r@.len() implies exists|b: int|
                        0 <= b < i + 1 && #[trigger] r@[a].0@ == parent@[b].0@ by {
                    if a < before.len() {
                        assert(r@[a] == before[a]);
                    } else {
                        assert(r@[a].0@ == parent@[i as int].0@);
                    }
                }
                if keys_unique(parent@) {
                    assert forall|a: int, b: int|
                        0 <= a < b < r@.len() implies r@[a].0@ != r@[b].0@ by {
                        assert(r@[a] == before[a]);
                        if b == r@.len() - 1 {
                            let c = choose|c: int|
                                0 <= c < i && #[trigger] before[a].0@ == parent@[c].0@;
                            assert(parent@[c].0@ != parent@[i as int].0@);
                        } else {
                            assert(r@[b] == before[b]);
                        }
                    }
                }
                assert(env_map(r@) =~= env_map(parent@.take(i as int + 1)).remove_keys(
                    over.dom(),
                ));
            }
        } else {
            proof {
                assert(env_map(r@) =~= env_map(parent@.take(i as int + 1)).remove_keys(
                    over.dom(),
                ));
            }
        }
        i = i + 1;
    }
    assert(parent@.take(parent@.len() as int) == parent@);
    let ghost base = r@;
    let mut j: usize = 0;
    while j < overrides.len()
        invariant
            j <= overrides@.len(),
            over == env_map(overrides@),
            base.len() <= r@.len(),
            r@.take(base.len() as int) == base,
            keys_unique(parent@) ==> keys_unique(base),
            env_map(base) == env_map(parent@).remove_keys(over.dom()),
            env_map(r@) == env_map(base).union_prefer_right(env_map(overrides@.take(j as int))),
            forall|a: int| 0 <= a < base.len() ==> !over.dom().contains(#[trigger] base[a].0@),
            r@.len() == base.len() + j,
            forall|a: int|
                0 <= a < j ==> #[trigger] r@[base.len() + a] == overrides@[a],
        decreases overrides@.len() - j,
    {
        proof {
            lemma_env_map_take_step(overrides@, j as int);
        }
        let ghost before = r@;
        let e = (overrides[j].0.clone(), overrides[j].1.clone());
        r.push(e);
        proof {
            lemma_env_map_push(before, e);
            assert(r@.take(base.len() as int) == before.take(base.len() as int));
            assert(env_map(r@) =~= env_map(base).union_prefer_right(
                env_map(overrides@.take(j as int + 1)),
            ));
        }
        j = j + 1;
    }
    proof {
        assert(overrides@.take(overrides@.len() as int) == overrides@);
        assert(env_map(r@) =~= env_map(parent@).union_prefer_right(over));
        assert forall|a: int| 0 <= a < base.len() implies r@[a] == base[a] by {
            assert(r@.take(base.len() as int)[a] == r@[a]);
        }
        assert forall|a: int|
            base.len() <= a < r@.len() implies r@[a] == overrides@[a - base.len()] by {
            assert(r@[base.len() + (a - base.len())] == overrides@[a - base.len()]);
        }
        assert(r@ =~= base + overrides@);
        if keys_unique(parent@) && keys_unique(overrides@) {
            assert forall|a: int, b: int|
                0 <= a < b < r@.len() implies r@[a].0@ != r@[b].0@ by {
                if b >= base.len() {
                    let ob = b - base.len();
                    assert(r@[b] == overrides@[ob]);
                    lemma_entry_key_in_map(overrides@, ob);
                    if a >= base.len() {
                        assert(r@[a] == overrides@[a - base.len()]);
                    } else {
                        assert(r@[a] == base[a]);
                    }
                } else {
                    assert(r@[a] == base[a]);
                    assert(r@[b] == base[b]);
                }
            }
        }
    }
    r
}

} // verus!
