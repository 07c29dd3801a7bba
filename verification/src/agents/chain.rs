//! The roster of an agent's middlewares: each one's name and hooks, in
//! the order they were added, which of them run on a hook, and which is
//! found or taken out by name.
use crate::agents::middleware::MiddlewareHook;
use crate::error::{HarnessError, MiddlewareError};
use crate::text::{owned, str_eq, views};
use vstd::prelude::*;

verus! {

/// The middlewares, in order, that run on `hook`: the positions of the
/// entries whose hooks include it.
pub open spec fn running(e: Seq<(Seq<char>, Seq<MiddlewareHook>)>, hook: MiddlewareHook) -> Seq<int>
    decreases e.len(),
{
    if e.len() == 0 {
        Seq::empty()
    } else {
        let before = running(e.drop_last(), hook);
        if e.last().1.contains(hook) {
            before.push(e.len() - 1)
        } else {
            before
        }
    }
}

/// The names of the entries, in order.
pub open spec fn roster_names(e: Seq<(Seq<char>, Seq<MiddlewareHook>)>) -> Seq<Seq<char>> {
    e.map_values(|p: (Seq<char>, Seq<MiddlewareHook>)| p.0)
}

/// Whether `i` is the first position of an entry named `name`.
pub open spec fn first_named(e: Seq<(Seq<char>, Seq<MiddlewareHook>)>, name: Seq<char>, i: int) -> bool {
    &&& 0 <= i < e.len()
    &&& e[i].0 == name
    &&& forall|j: int| 0 <= j < i ==> (#[trigger] e[j]).0 != name
}

/// Whether no entry is named `name`.
pub open spec fn none_named(e: Seq<(Seq<char>, Seq<MiddlewareHook>)>, name: Seq<char>) -> bool {
    forall|j: int| 0 <= j < e.len() ==> (#[trigger] e[j]).0 != name
}

/// The names and hooks of an agent's middlewares, in the order they were
/// added.
#[derive(Debug)]
pub struct MiddlewareRoster {
    items: Vec<(String, Vec<MiddlewareHook>)>,
}

impl MiddlewareRoster {
    /// The entries: each middleware's name and hooks, in order.
    pub closed spec fn entries(&self) -> Seq<(Seq<char>, Seq<MiddlewareHook>)> {
        self.items@.map_values(|p: (String, Vec<MiddlewareHook>)| (p.0@, p.1@))
    }

    /// An empty roster.
    pub fn new() -> (r: Self)
        ensures
            r.entries() == Seq::<(Seq<char>, Seq<MiddlewareHook>)>::empty(),
    {
        let r = MiddlewareRoster { items: Vec::new() };
        assert(r.entries() =~= Seq::<(Seq<char>, Seq<MiddlewareHook>)>::empty());
        r
    }

    /// Adds a middleware at the end.
    pub fn add(&mut self, name: &str, hooks: &[MiddlewareHook])
        ensures
            final(self).entries() == old(self).entries().push((name@, hooks@)),
    {
        let mut hs: Vec<MiddlewareHook> = Vec::new();
        let mut i: usize = 0;
        while i < hooks.len()
            invariant
                i <= hooks@.len(),
                hs@ == hooks@.take(i as int),
            decreases hooks.len() - i,
        {
            hs.push(hooks[i]);
            assert(hooks@.take(i + 1) =~= hooks@.take(i as int).push(hooks@[i as int]));
            i += 1;
        }
        assert(hooks@.take(hooks@.len() as int) =~= hooks@);
        let ghost before = self.entries();
        self.items.push((owned(name), hs));
        assert(self.entries() =~= before.push((name@, hooks@)));
    }

    /// How many middlewares there are.
    pub fn len(&self) -> (n: usize)
        ensures
            n == self.entries().len(),
    {
        self.items.len()
    }

    /// Whether there is none.
    pub fn is_empty(&self) -> (r: bool)
        ensures
            r == (self.entries().len() == 0),
    {
        self.items.len() == 0
    }

    /// The positions, in order, of the middlewares that run on `hook`.
    pub fn runs_for(&self, hook: MiddlewareHook) -> (r: Vec<usize>)
        ensures
            r@.map_values(|i: usize| i as int) == running(self.entries(), hook),
    {
        let ghost e = self.entries();
        let mut r: Vec<usize> = Vec::new();
        let mut i: usize = 0;
        while i < self.items.len()
            invariant
                i <= self.items@.len(),
                e == self.entries(),
                r@.map_values(|k: usize| k as int) == running(e.take(i as int), hook),
            decreases self.items.len() - i,
        {
            assert(e.take(i + 1).drop_last() =~= e.take(i as int));
            assert(e.take(i + 1).last() == e[i as int]);
            let hs = &self.items[i].1;
            let mut found = false;
            let mut j: usize = 0;
            while j < hs.len()
                invariant
                    j <= hs@.len(),
                    found == exists|k: int| 0 <= k < j && hs@[k] == hook,
                decreases hs.len() - j,
            {
                if hs[j] == hook {
                    found = true;
                }
                j += 1;
            }
            assert(found == hs@.contains(hook));
            if found {
                let ghost before = r@;
                r.push(i);
                assert(r@.map_values(|k: usize| k as int) =~= before.map_values(|k: usize| k as int).push(
                    i as int,
                ));
            }
            i += 1;
        }
        assert(e.take(e.len() as int) =~= e);
        r
    }

    /// The position of the first middleware named `name`.
    pub fn position(&self, name: &str) -> (r: Option<usize>)
        ensures
            match r {
                Some(i) => first_named(self.entries(), name@, i as int),
                None => none_named(self.entries(), name@),
            },
    {
        let mut i: usize = 0;
        while i < self.items.len()
            invariant
                i <= self.items@.len(),
                forall|j: int| 0 <= j < i ==> self.items@[j].0@ != name@,
            decreases self.items.len() - i,
        {
            if str_eq(self.items[i].0.as_str(), name) {
                return Some(i);
            }
            i += 1;
        }
        None
    }

    /// Takes out the first middleware named `name` and gives its
    /// position; fails with `Middleware not found` when there is none.
    pub fn remove_by_name(&mut self, name: &str) -> (r: Result<usize, HarnessError>)
        ensures
            match r {
                Ok(i) => first_named(old(self).entries(), name@, i as int) && final(self).entries()
                    == old(self).entries().remove(i as int),
                Err(e) => {
                    &&& none_named(old(self).entries(), name@)
                    &&& final(self).entries() == old(self).entries()
                    &&& e matches HarnessError::Middleware(MiddlewareError::ExecutionFailed(n, m))
                    &&& n@ == name@
                    &&& m@ == "Middleware not found"@
                },
            },
    {
        match self.position(name) {
            None => Err(
                HarnessError::Middleware(
                    MiddlewareError::ExecutionFailed(owned(name), owned("Middleware not found")),
                ),
            ),
            Some(i) => {
                let ghost before = self.entries();
                self.items.remove(i);
                assert(self.entries() =~= before.remove(i as int));
                Ok(i)
            },
        }
    }

    /// Takes out every middleware.
    pub fn clear(&mut self)
        ensures
            final(self).entries() == Seq::<(Seq<char>, Seq<MiddlewareHook>)>::empty(),
    {
        self.items = Vec::new();
        assert(self.entries() =~= Seq::<(Seq<char>, Seq<MiddlewareHook>)>::empty());
    }

    /// The names, in order.
    pub fn names(&self) -> (r: Vec<String>)
        ensures
            views(r@) == roster_names(self.entries()),
    {
        let ghost ns = roster_names(self.entries());
        let mut r: Vec<String> = Vec::new();
        let mut i: usize = 0;
        while i < self.items.len()
            invariant
                i <= self.items@.len(),
                ns == roster_names(self.entries()),
                views(r@) == ns.take(i as int),
            decreases self.items.len() - i,
        {
            r.push(self.items[i].0.clone());
            assert(ns.take(i + 1) =~= ns.take(i as int).push(self.items@[i as int].0@));
            i += 1;
        }
        assert(ns.take(ns.len() as int) =~= ns);
        r
    }
}

/// A middleware added to a roster runs on each of its hooks, after all
/// that were there before it; on other hooks the same middlewares run
/// as before.
pub proof fn law_added_runs_last(
    e: Seq<(Seq<char>, Seq<MiddlewareHook>)>,
    name: Seq<char>,
    hooks: Seq<MiddlewareHook>,
    hook: MiddlewareHook,
)
    ensures
        running(e.push((name, hooks)), hook) == if hooks.contains(hook) {
            running(e, hook).push(e.len() as int)
        } else {
            running(e, hook)
        },
{
    assert(e.push((name, hooks)).drop_last() =~= e);
}

/// Every middleware that runs on a hook has that hook, and they run in
/// the order they were added.
pub proof fn law_running_in_order(e: Seq<(Seq<char>, Seq<MiddlewareHook>)>, hook: MiddlewareHook)
    ensures
        forall|k: int|
            0 <= k < running(e, hook).len() ==> 0 <= #[trigger] running(e, hook)[k] < e.len()
                && e[running(e, hook)[k]].1.contains(hook),
        forall|a: int, b: int|
            0 <= a < b < running(e, hook).len() ==> #[trigger] running(e, hook)[a] < #[trigger] running(
                e,
                hook,
            )[b],
    decreases e.len(),
{
    if e.len() > 0 {
        let p = e.drop_last();
        law_running_in_order(p, hook);
        let rp = running(p, hook);
        let re = running(e, hook);
        assert forall|k: int| 0 <= k < re.len() implies 0 <= #[trigger] re[k] < e.len() && e[re[k]].1.contains(
            hook,
        ) by {
            if k < rp.len() {
                assert(re[k] == rp[k]);
                assert(e[rp[k]] == p[rp[k]]);
            }
        }
        assert forall|a: int, b: int| 0 <= a < b < re.len() implies #[trigger] re[a] < #[trigger] re[b] by {
            if b < rp.len() {
                assert(re[a] == rp[a] && re[b] == rp[b]);
            } else {
                assert(re[a] == rp[a]);
                assert(rp[a] < p.len());
            }
        }
    }
}

} // verus!
