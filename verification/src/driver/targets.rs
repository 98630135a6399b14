//! The list of enabled targets, and the configurations that wait for a target of their name.
use vstd::prelude::*;
use crate::cstr::CStr;
use crate::driver::cmdline::ParsedConfig;
use crate::error::{Error, ENOMEM};
use crate::memory::{room_tried, try_room};

verus! {

/// A list without any of the places where it holds `id`.
pub open spec fn without(list: Seq<usize>, id: usize) -> Seq<usize> {
    list.filter(|x: usize| x != id)
}

/// Removing takes a target off the list wherever it stands; every other one stays, and none comes
/// to stand there twice.
pub proof fn law_remove_keeps_others(list: Seq<usize>, id: usize, other: usize)
    ensures
        !without(list, id).contains(id),
        other != id ==> without(list, id).contains(other) == list.contains(other),
        list.no_duplicates() ==> without(list, id).no_duplicates(),
    decreases list.len(),
{
    reveal(Seq::filter);
    let p = |x: usize| x != id;
    let kept = without(list, id);
    if list.len() > 0 {
        let front = list.drop_last();
        law_remove_keeps_others(front, id, other);
        law_remove_keeps_others(front, id, list.last());
        assert forall|x: usize| #[trigger] list.contains(x) implies front.contains(x) || x
            == list.last() by {
            let i = choose|i: int| 0 <= i < list.len() && list[i] == x;
            if i < front.len() {
                assert(front[i] == x);
            }
        }
        assert(front.contains(other) ==> list.contains(other)) by {
            if front.contains(other) {
                let i = choose|i: int| 0 <= i < front.len() && front[i] == other;
                assert(list[i] == other);
            }
        }
        assert(list[list.len() - 1] == list.last());
        if p(list.last()) {
            assert(kept == without(front, id).push(list.last()));
            assert forall|x: usize| #[trigger] kept.contains(x) implies without(front, id).contains(x)
                || x == list.last() by {
                let i = choose|i: int| 0 <= i < kept.len() && kept[i] == x;
                if i < kept.len() - 1 {
                    assert(without(front, id)[i] == x);
                }
            }
            assert(without(front, id).contains(other) ==> kept.contains(other)) by {
                if without(front, id).contains(other) {
                    let i = choose|i: int|
                        0 <= i < without(front, id).len() && without(front, id)[i] == other;
                    assert(kept[i] == other);
                }
            }
            assert(kept[kept.len() - 1] == list.last());
            if list.no_duplicates() {
                assert(!front.contains(list.last())) by {
                    if front.contains(list.last()) {
                        let i = choose|i: int| 0 <= i < front.len() && front[i] == list.last();
                        assert(list[i] == list[list.len() - 1]);
                    }
                }
                assert(front.no_duplicates()) by {
                    assert forall|i: int, j: int| 0 <= i < j < front.len() implies front[i]
                        != front[j] by {
                        assert(list[i] != list[j]);
                    }
                }
                assert forall|i: int, j: int| 0 <= i < j < kept.len() implies kept[i]
                    != kept[j] by {
                    if j == kept.len() - 1 {
                        assert(without(front, id)[i] == kept[i]);
                        assert(without(front, id).contains(kept[i]));
                    } else {
                        assert(without(front, id)[i] != without(front, id)[j]);
                    }
                }
            }
        } else {
            assert(kept == without(front, id));
            if list.no_duplicates() {
                assert(front.no_duplicates()) by {
                    assert forall|i: int, j: int| 0 <= i < j < front.len() implies front[i]
                        != front[j] by {
                        assert(list[i] != list[j]);
                    }
                }
            }
        }
    }
}

/// Removing what is not there changes nothing.
proof fn lemma_without_absent(list: Seq<usize>, id: usize)
    requires
        !list.contains(id),
    ensures
        without(list, id) == list,
    decreases list.len(),
{
    reveal(Seq::filter);
    if list.len() > 0 {
        let front = list.drop_last();
        assert(list[list.len() - 1] != id) by {
            assert(list.contains(list[list.len() - 1]));
        }
        assert(!front.contains(id)) by {
            if front.contains(id) {
                let i = choose|i: int| 0 <= i < front.len() && front[i] == id;
                assert(list[i] == id);
            }
        }
        lemma_without_absent(front, id);
        assert(front.push(list.last()) =~= list);
    } else {
        assert(without(list, id) =~= list);
    }
}

/// Removing undoes adding, where the target was not on the list.
pub proof fn law_list_remove_undoes_add(list: Seq<usize>, id: usize)
    requires
        !list.contains(id),
    ensures
        without(list.push(id), id) == list,
{
    reveal(Seq::filter);
    assert(list.push(id).drop_last() =~= list);
    lemma_without_absent(list, id);
}

/// The targets that messages are sent to, in the order in which they were enabled.
#[derive(Debug)]
pub struct EnabledTargets {
    pub list: Vec<usize>,
}

impl View for EnabledTargets {
    type V = Seq<usize>;

    open spec fn view(&self) -> Seq<usize> {
        self.list@
    }
}

impl EnabledTargets {
    /// The empty list.
    pub fn new() -> (e: EnabledTargets)
        ensures
            e@ == Seq::<usize>::empty(),
    {
        EnabledTargets { list: Vec::new() }
    }

    /// Makes room for one more target. Whether there is memory for it is not up to this code.
    pub(crate) fn reserve(&mut self) -> (r: bool)
        ensures
            final(self)@ == old(self)@,
            room_tried(old(self).list, 1, r),
    {
        try_room(&mut self.list, 1)
    }

    /// Adds a target, given whether there is memory for it.
    pub fn add_reserved(&mut self, id: usize, reserved: bool) -> (r: Result<(), Error>)
        ensures
            reserved ==> r == Ok::<(), Error>(()) && final(self)@ == old(self)@.push(id),
            !reserved ==> r == Err::<(), Error>(Error(ENOMEM)) && final(self)@ == old(self)@,
    {
        if !reserved {
            return Err(Error(ENOMEM));
        }
        self.list.push(id);
        Ok(())
    }

    /// Adds a target. It is refused where there is no memory for it.
    pub fn add(&mut self, id: usize) -> (r: Result<(), Error>)
        ensures
            r is Ok ==> final(self)@ == old(self)@.push(id),
            r is Err ==> r == Err::<(), Error>(Error(ENOMEM)) && final(self)@ == old(self)@,
            room_tried(old(self).list, 1, r is Ok),
    {
        let reserved: bool = self.reserve();
        self.add_reserved(id, reserved)
    }

    /// Removes a target.
    pub fn remove(&mut self, id: usize)
        ensures
            final(self)@ == without(old(self)@, id),
    {
        let ghost before = self.list@;
        let ghost mut done: int = 0;
        let mut i: usize = 0;
        assert(without(before.take(0), id) + before.skip(0) =~= before) by {
            reveal(Seq::filter);
        }
        while i < self.list.len()
            invariant
                0 <= done <= before.len(),
                i == without(before.take(done), id).len(),
                self.list@ == without(before.take(done), id) + before.skip(done),
            decreases before.len() - done,
        {
            let ghost kept = without(before.take(done), id);
            assert(done < before.len());
            assert(self.list@[i as int] == before[done]);
            proof {
                reveal(Seq::filter);
                assert(before.take(done + 1).drop_last() =~= before.take(done));
                assert(before.take(done + 1).last() == before[done]);
                assert(before.skip(done) =~= seq![before[done]] + before.skip(done + 1));
            }
            if self.list[i] == id {
                let _ = self.list.remove(i);
                assert(self.list@ =~= kept + before.skip(done + 1));
            } else {
                i += 1;
                assert(self.list@ =~= kept.push(before[done]) + before.skip(done + 1));
            }
            proof {
                done = done + 1;
            }
        }
        assert(before.skip(done).len() == 0);
        assert(before.take(done) =~= before);
        assert(self.list@ =~= without(before, id));
    }
}

/// The first entry with a name stands at position `i`.
pub open spec fn first_named(
    entries: Seq<(Seq<u8>, ParsedConfig)>,
    name: Seq<u8>,
    i: int,
) -> bool {
    &&& 0 <= i < entries.len()
    &&& entries[i].0 == name
    &&& forall|j: int| 0 <= j < i ==> (#[trigger] entries[j]).0 != name
}

/// No entry has the name.
pub open spec fn unnamed(entries: Seq<(Seq<u8>, ParsedConfig)>, name: Seq<u8>) -> bool {
    forall|j: int| 0 <= j < entries.len() ==> (#[trigger] entries[j]).0 != name
}

/// What was added under a name that was free is found under it, and taking it leaves what was
/// there before.
pub proof fn law_take_undoes_add(
    entries: Seq<(Seq<u8>, ParsedConfig)>,
    name: Seq<u8>,
    cfg: ParsedConfig,
)
    requires
        unnamed(entries, name),
    ensures
        first_named(entries.push((name, cfg)), name, entries.len() as int),
        entries.push((name, cfg))[entries.len() as int].1 == cfg,
        entries.push((name, cfg)).remove(entries.len() as int) == entries,
{
    assert(entries.push((name, cfg)).remove(entries.len() as int) =~= entries);
}

/// Configurations from the command line, each under the name of the target that it is for.
#[derive(Debug)]
pub struct CmdlineConfigHolder {
    pub configs: Vec<(CStr, ParsedConfig)>,
}

impl View for CmdlineConfigHolder {
    type V = Seq<(Seq<u8>, ParsedConfig)>;

    open spec fn view(&self) -> Seq<(Seq<u8>, ParsedConfig)> {
        self.configs@.map_values(|e: (CStr, ParsedConfig)| (e.0@, e.1))
    }
}

impl CmdlineConfigHolder {
    /// No configurations.
    pub fn new() -> (h: CmdlineConfigHolder)
        ensures
            h@ == Seq::<(Seq<u8>, ParsedConfig)>::empty(),
    {
        let h: CmdlineConfigHolder = CmdlineConfigHolder { configs: Vec::new() };
        assert(h@ =~= Seq::<(Seq<u8>, ParsedConfig)>::empty());
        h
    }

    /// Adds a configuration, given whether there is memory for it.
    pub fn add_reserved(&mut self, name: CStr, config: ParsedConfig, reserved: bool) -> (r: Result<
        (),
        Error,
    >)
        ensures
            reserved ==> r == Ok::<(), Error>(()) && final(self)@ == old(self)@.push(
                (name@, config),
            ),
            !reserved ==> r == Err::<(), Error>(Error(ENOMEM)) && final(self)@ == old(self)@,
    {
        if !reserved {
            return Err(Error(ENOMEM));
        }
        self.configs.push((name, config));
        assert(self@ =~= old(self)@.push((name@, config)));
        Ok(())
    }

    /// Adds a configuration. It is refused where there is no memory for it.
    pub fn add(&mut self, name: CStr, config: ParsedConfig) -> (r: Result<(), Error>)
        ensures
            r is Ok ==> final(self)@ == old(self)@.push((name@, config)),
            r is Err ==> r == Err::<(), Error>(Error(ENOMEM)) && final(self)@ == old(self)@,
            room_tried(old(self).configs, 1, r is Ok),
    {
        let reserved: bool = try_room(&mut self.configs, 1);
        assert(self@ == old(self)@);
        self.add_reserved(name, config, reserved)
    }

    /// Takes the first configuration under a name out, where there is one.
    pub fn take(&mut self, name: &CStr) -> (r: Option<ParsedConfig>)
        ensures
            match r {
                Some(cfg) => exists|i: int| #[trigger]
                    first_named(old(self)@, name@, i) && cfg == old(self)@[i].1 && final(self)@
                        == old(self)@.remove(i),
                None => unnamed(old(self)@, name@) && final(self)@ == old(self)@,
            },
    {
        let mut i: usize = 0;
        while i < self.configs.len()
            invariant
                self.configs@ == old(self).configs@,
                i <= self.configs@.len(),
                forall|j: int| 0 <= j < i ==> (#[trigger] self@[j]).0 != name@,
            decreases self.configs@.len() - i,
        {
            assert(self@[i as int].0 == self.configs@[i as int].0@);
            if self.configs[i].0.same_as(name) {
                assert(self@ == old(self)@);
                let entry: (CStr, ParsedConfig) = self.configs.remove(i);
                assert(first_named(old(self)@, name@, i as int));
                assert(self@ =~= old(self)@.remove(i as int));
                return Some(entry.1);
            }
            i += 1;
        }
        assert(self@ == old(self)@);
        None
    }
}

/// Removing goes through a list part by part: it drops each place that holds the target, and keeps
/// every other place in its order.
pub proof fn law_remove_is_placewise(a: Seq<usize>, b: Seq<usize>, id: usize, other: usize)
    requires
        other != id,
    ensures
        without(Seq::<usize>::empty(), id) == Seq::<usize>::empty(),
        without(seq![id], id) == Seq::<usize>::empty(),
        without(seq![other], id) == seq![other],
        without(a + b, id) == without(a, id) + without(b, id),
{
    reveal(Seq::filter);
    Seq::filter_distributes_over_add(a, b, |x: usize| x != id);
    assert(seq![id].drop_last() =~= Seq::<usize>::empty());
    assert(seq![other].drop_last() =~= Seq::<usize>::empty());
    lemma_without_absent(Seq::<usize>::empty(), id);
    lemma_without_absent(seq![other], id);
    assert(without(seq![id].drop_last(), id) =~= Seq::<usize>::empty());
    assert(without(seq![id], id) =~= Seq::<usize>::empty());
}

/// The first configuration under a name is the one that has the name and has none of that name in
/// front of it. The stored configurations stand for their names and values.
pub proof fn law_first_of_a_name(
    a: Seq<(Seq<u8>, ParsedConfig)>,
    b: Seq<(Seq<u8>, ParsedConfig)>,
    name: Seq<u8>,
    cfg: ParsedConfig,
    i: int,
)
    requires
        forall|j: int| 0 <= j < a.len() ==> (#[trigger] a[j]).0 != name,
    ensures
        unnamed(a, name),
        !unnamed(a + seq![(name, cfg)] + b, name),
        first_named(a + seq![(name, cfg)] + b, name, i) <==> i == a.len(),
        (a + seq![(name, cfg)] + b).remove(a.len() as int) == a + b,
{
    let all = a + seq![(name, cfg)] + b;
    assert(all[a.len() as int] == (name, cfg));
    assert forall|j: int| 0 <= j < a.len() implies (#[trigger] all[j]).0 != name by {
        assert(all[j] == a[j]);
    }
    if first_named(all, name, i) {
        if i < a.len() {
            assert(all[i].0 != name);
        }
        if i > a.len() {
            assert(all[a.len() as int].0 != name);
        }
    }
    assert(all.remove(a.len() as int) =~= a + b);
}

/// What waits stands for the names and the configurations that are stored.
pub proof fn law_waiting_is_what_is_stored(h: CmdlineConfigHolder, e: EnabledTargets, i: int)
    requires
        0 <= i < h.configs@.len(),
    ensures
        h@.len() == h.configs@.len(),
        h@[i].0 == h.configs@[i].0@,
        h@[i].1 == h.configs@[i].1,
        e@ == e.list@,
{
}

} // verus!
