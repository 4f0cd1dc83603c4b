use vstd::prelude::*;

verus! {

/// The handlers this library knows how to describe and route to.
#[derive(PartialEq, Eq, Structural, Clone, Copy, Debug)]
pub enum HandlerId {
    Calculate,
}

/// One registration: a function name and the handler it resolves to.
pub struct Entry {
    pub name: String,
    pub handler: HandlerId,
}

/// An immutable lookup table from function name to handler.
pub struct Registry {
    entries: Vec<Entry>,
}

/// The handler registered under `name` in `entries`, if any.
pub open spec fn handler_in(entries: Seq<(Seq<char>, HandlerId)>, name: Seq<char>) -> Option<
    HandlerId,
>
    decreases entries.len(),
{
    if entries.len() == 0 {
        None
    } else if entries[0].0 == name {
        Some(entries[0].1)
    } else {
        handler_in(entries.drop_first(), name)
    }
}

/// No two entries share a name.
pub open spec fn names_unique(entries: Seq<(Seq<char>, HandlerId)>) -> bool {
    forall|a: int, b: int|
        0 <= a < b < entries.len() ==> #[trigger] entries[a].0 != #[trigger] entries[b].0
}

proof fn lemma_handler_in_index(entries: Seq<(Seq<char>, HandlerId)>, name: Seq<char>, n: int)
    requires
        0 <= n <= entries.len(),
        forall|a: int| 0 <= a < n ==> #[trigger] entries[a].0 != name,
    ensures
        handler_in(entries, name) == (if n < entries.len() && entries[n].0 == name {
            Some(entries[n].1)
        } else {
            handler_in(entries.subrange(n, entries.len() as int), name)
        }),
    decreases n,
{
    if n > 0 {
        assert(entries[0].0 != name);
        lemma_handler_in_index(entries.drop_first(), name, n - 1);
        assert(entries.drop_first().subrange(n - 1, entries.len() - 1) =~= entries.subrange(
            n,
            entries.len() as int,
        ));
    } else {
        assert(entries.subrange(0, entries.len() as int) =~= entries);
    }
    if n < entries.len() && entries[n].0 == name {
        let rest = entries.subrange(n, entries.len() as int);
        assert(rest[0] == entries[n]);
    }
}

impl Registry {
    /// The registrations, in order, as (name, handler) pairs.
    pub closed spec fn entries_view(&self) -> Seq<(Seq<char>, HandlerId)> {
        self.entries@.map_values(|e: Entry| (e.name@, e.handler))
    }

    /// The handler registered under `name`, if any.
    pub open spec fn handler_for(&self, name: Seq<char>) -> Option<HandlerId> {
        handler_in(self.entries_view(), name)
    }

    pub closed spec fn wf(&self) -> bool {
        names_unique(self.entries_view())
    }

    /// Builds a registry from `entries`; `None` when two entries share a name.
    pub fn from_entries(entries: Vec<Entry>) -> (r: Option<Registry>)
        ensures
            match r {
                Some(reg) => reg.wf() && reg.entries_view() == entries@.map_values(
                    |e: Entry| (e.name@, e.handler),
                ),
                None => !names_unique(entries@.map_values(|e: Entry| (e.name@, e.handler))),
            },
    {
        let ghost view = entries@.map_values(|e: Entry| (e.name@, e.handler));
        let mut b: usize = 1;
        while b < entries.len()
            invariant
                1 <= b,
                view == entries@.map_values(|e: Entry| (e.name@, e.handler)),
                forall|x: int, y: int|
                    0 <= x < y < b && y < entries.len() ==> #[trigger] view[x].0 != #[trigger] view[y].0,
            decreases entries.len() - b,
        {
            let mut a: usize = 0;
            while a < b
                invariant
                    a <= b < entries.len(),
                    view == entries@.map_values(|e: Entry| (e.name@, e.handler)),
                    forall|x: int, y: int|
                        0 <= x < y < b ==> #[trigger] view[x].0 != #[trigger] view[y].0,
                    forall|x: int| 0 <= x < a ==> #[trigger] view[x].0 != view[b as int].0,
                decreases b - a,
            {
                if entries[a].name == entries[b].name {
                    assert(view[a as int].0 == view[b as int].0);
                    return None;
                }
                a = a + 1;
            }
            b = b + 1;
        }
        let reg = Registry { entries };
        assert(reg.entries_view() == view);
        Some(reg)
    }

    /// The standard registry: `calculate` resolves to the calculator.
    pub fn standard() -> (r: Registry)
        ensures
            r.wf(),
            r.entries_view() == seq![("calculate"@, HandlerId::Calculate)],
    {
        let entries = vec![Entry { name: String::from_str("calculate"), handler: HandlerId::Calculate }];
        let reg = Registry { entries };
        assert(reg.entries_view() =~= seq![("calculate"@, HandlerId::Calculate)]);
        reg
    }

    /// Looks up the handler registered under `name`.
    pub fn lookup(&self, name: &String) -> (r: Option<HandlerId>)
        ensures
            r == self.handler_for(name@),
    {
        let ghost view = self.entries_view();
        let mut a: usize = 0;
        while a < self.entries.len()
            invariant
                a <= self.entries.len(),
                view == self.entries_view(),
                forall|x: int| 0 <= x < a ==> #[trigger] view[x].0 != name@,
            decreases self.entries.len() - a,
        {
            if self.entries[a].name == *name {
                proof {
                    lemma_handler_in_index(view, name@, a as int);
                }
                return Some(self.entries[a].handler);
            }
            a = a + 1;
        }
        proof {
            lemma_handler_in_index(view, name@, a as int);
            assert(view.subrange(a as int, view.len() as int).len() == 0);
        }
        None
    }

    /// The number of registrations.
    pub fn len(&self) -> (r: usize)
        ensures
            r == self.entries_view().len(),
    {
        self.entries.len()
    }

    /// The registration at `index`, as its name and handler.
    pub fn entry(&self, index: usize) -> (r: (String, HandlerId))
        requires
            index < self.entries_view().len(),
        ensures
            r.0@ == self.entries_view()[index as int].0,
            r.1 == self.entries_view()[index as int].1,
    {
        (self.entries[index].name.clone(), self.entries[index].handler)
    }
}

} // verus!
