//! The parts of the configuration that the library works on: the video
//! folder and which wallpaper each monitor shows.
use vstd::prelude::*;

verus! {

#[derive(Debug, Clone)]
pub struct GeneralConfig {
    pub video_folder: String,
}

/// The wallpaper (a video path) assigned to each monitor, by monitor name.
/// Each monitor has at most one entry.
pub struct MonitorAssignments {
    assignments: Vec<(String, String)>,
}

/// The map that a list of (monitor, video) pairs stands for; later pairs
/// win, though a well-formed list names each monitor once.
pub open spec fn map_of(s: Seq<(String, String)>) -> Map<Seq<char>, Seq<char>>
    decreases s.len(),
{
    if s.len() == 0 {
        Map::empty()
    } else {
        map_of(s.drop_last()).insert(s.last().0@, s.last().1@)
    }
}

/// No monitor occurs twice.
pub open spec fn keys_distinct(s: Seq<(String, String)>) -> bool {
    forall|i: int, j: int| 0 <= i < j < s.len() ==> (#[trigger] s[i]).0@ != (#[trigger] s[j]).0@
}

proof fn lemma_keys_distinct_prefix(s: Seq<(String, String)>)
    requires
        keys_distinct(s),
        s.len() > 0,
    ensures
        keys_distinct(s.drop_last()),
{
    assert forall|i: int, j: int| 0 <= i < j < s.len() - 1 implies (#[trigger] s.drop_last()[i]).0@
        != (#[trigger] s.drop_last()[j]).0@ by {
        assert(s.drop_last()[i] == s[i] && s.drop_last()[j] == s[j]);
    }
}

proof fn lemma_map_of_contains(s: Seq<(String, String)>, k: Seq<char>)
    ensures
        map_of(s).dom().contains(k) <==> exists|i: int| 0 <= i < s.len() && (#[trigger] s[i]).0@ == k,
        map_of(s).dom().finite(),
    decreases s.len(),
{
    if s.len() > 0 {
        lemma_map_of_contains(s.drop_last(), k);
        if map_of(s.drop_last()).dom().contains(k) {
            let i = choose|i: int| 0 <= i < s.len() - 1 && (#[trigger] s.drop_last()[i]).0@ == k;
            assert(s[i] == s.drop_last()[i]);
        }
        if exists|i: int| 0 <= i < s.len() && (#[trigger] s[i]).0@ == k {
            let i = choose|i: int| 0 <= i < s.len() && (#[trigger] s[i]).0@ == k;
            if i < s.len() - 1 {
                assert(s.drop_last()[i] == s[i]);
            }
        }
    }
}

proof fn lemma_map_of_value(s: Seq<(String, String)>, i: int)
    requires
        keys_distinct(s),
        0 <= i < s.len(),
    ensures
        map_of(s).dom().contains(s[i].0@),
        map_of(s)[s[i].0@] == s[i].1@,
    decreases s.len(),
{
    if i < s.len() - 1 {
        lemma_keys_distinct_prefix(s);
        assert(s.drop_last()[i] == s[i]);
        lemma_map_of_value(s.drop_last(), i);
        assert(s[i].0@ != s.last().0@);
    }
}

proof fn lemma_map_of_update(s: Seq<(String, String)>, i: int, e: (String, String))
    requires
        keys_distinct(s),
        0 <= i < s.len(),
        e.0@ == s[i].0@,
    ensures
        map_of(s.update(i, e)) == map_of(s).insert(e.0@, e.1@),
        keys_distinct(s.update(i, e)),
    decreases s.len(),
{
    let u = s.update(i, e);
    assert forall|a: int, b: int| 0 <= a < b < u.len() implies (#[trigger] u[a]).0@
        != (#[trigger] u[b]).0@ by {
        assert(s[a].0@ != s[b].0@);
    }
    if i == s.len() - 1 {
        assert(u.drop_last() =~= s.drop_last());
        assert(map_of(u) =~= map_of(s).insert(e.0@, e.1@));
    } else {
        lemma_keys_distinct_prefix(s);
        assert(u.drop_last() =~= s.drop_last().update(i, e));
        lemma_map_of_update(s.drop_last(), i, e);
        assert(s[i].0@ != s.last().0@);
        assert(map_of(u) =~= map_of(s).insert(e.0@, e.1@));
    }
}

proof fn lemma_map_of_len(s: Seq<(String, String)>)
    requires
        keys_distinct(s),
    ensures
        map_of(s).dom().len() == s.len(),
    decreases s.len(),
{
    lemma_map_of_contains(s, Seq::empty());
    if s.len() > 0 {
        lemma_keys_distinct_prefix(s);
        lemma_map_of_len(s.drop_last());
        lemma_map_of_contains(s.drop_last(), s.last().0@);
        assert(!map_of(s.drop_last()).dom().contains(s.last().0@)) by {
            if map_of(s.drop_last()).dom().contains(s.last().0@) {
                let i = choose|i: int|
                    0 <= i < s.len() - 1 && (#[trigger] s.drop_last()[i]).0@ == s.last().0@;
                assert(s[i] == s.drop_last()[i]);
            }
        }
        lemma_map_of_contains(s.drop_last(), Seq::empty());
    }
}

fn copy_pair(p: &(String, String)) -> (r: (String, String))
    ensures
        r == *p,
{
    (p.0.clone(), p.1.clone())
}

impl View for MonitorAssignments {
    type V = Map<Seq<char>, Seq<char>>;

    /// The assignments as a map from monitor name to video path.
    closed spec fn view(&self) -> Map<Seq<char>, Seq<char>> {
        map_of(self.assignments@)
    }
}

impl MonitorAssignments {
    #[verifier::type_invariant]
    spec fn well_formed(self) -> bool {
        keys_distinct(self.assignments@)
    }

    /// No assignments.
    pub fn new() -> (r: Self)
        ensures
            r@ == Map::<Seq<char>, Seq<char>>::empty(),
    {
        MonitorAssignments { assignments: Vec::new() }
    }

    /// The number of monitors with a wallpaper.
    pub fn len(&self) -> (r: usize)
        ensures
            self@.dom().finite(),
            r == self@.dom().len(),
    {
        proof {
            use_type_invariant(self);
            lemma_map_of_len(self.assignments@);
            lemma_map_of_contains(self.assignments@, Seq::empty());
        }
        self.assignments.len()
    }

    /// Whether no monitor has a wallpaper.
    pub fn is_empty(&self) -> (r: bool)
        ensures
            self@.dom().finite(),
            r == (self@.dom().len() == 0),
    {
        self.len() == 0
    }

    fn position(&self, monitor: &str) -> (r: Option<usize>)
        ensures
            match r {
                Some(i) => i < self.assignments.len() && self.assignments@[i as int].0@ == monitor@,
                None => forall|i: int|
                    0 <= i < self.assignments.len() ==> (#[trigger] self.assignments@[i]).0@
                        != monitor@,
            },
    {
        let k = String::from_str(monitor);
        let mut i: usize = 0;
        while i < self.assignments.len()
            invariant
                i <= self.assignments.len(),
                k@ == monitor@,
                forall|j: int| 0 <= j < i ==> (#[trigger] self.assignments@[j]).0@ != monitor@,
            decreases self.assignments.len() - i,
        {
            if self.assignments[i].0 == k {
                return Some(i);
            }
            i = i + 1;
        }
        None
    }

    /// The wallpaper of a monitor, if it has one.
    pub fn get(&self, monitor: &str) -> (r: Option<&String>)
        ensures
            match r {
                Some(v) => self@.dom().contains(monitor@) && self@[monitor@] == v@,
                None => !self@.dom().contains(monitor@),
            },
    {
        proof {
            use_type_invariant(self);
            lemma_map_of_contains(self.assignments@, monitor@);
        }
        match self.position(monitor) {
            Some(i) => {
                proof {
                    lemma_map_of_value(self.assignments@, i as int);
                }
                Some(&self.assignments[i].1)
            },
            None => None,
        }
    }

    /// Assigns a wallpaper to a monitor, replacing the one it had, which is
    /// returned.
    pub fn insert(&mut self, monitor: String, video: String) -> (r: Option<String>)
        ensures
            final(self)@ == old(self)@.insert(monitor@, video@),
            match r {
                Some(v) => old(self)@.dom().contains(monitor@) && old(self)@[monitor@]
                    == v@,
                None => !old(self)@.dom().contains(monitor@),
            },
    {
        proof {
            use_type_invariant(&*self);
            lemma_map_of_contains(self.assignments@, monitor@);
        }
        let pos = self.position(monitor.as_str());
        let mut v: Vec<(String, String)> = Vec::new();
        std::mem::swap(&mut v, &mut self.assignments);
        let ghost s = v@;
        match pos {
            Some(i) => {
                proof {
                    lemma_map_of_value(s, i as int);
                    lemma_map_of_update(s, i as int, (monitor, video));
                }
                let old_video = copy_pair(&v[i]).1;
                v.set(i, (monitor, video));
                self.assignments = v;
                Some(old_video)
            },
            None => {
                let ghost e = (monitor, video);
                v.push((monitor, video));
                proof {
                    assert(v@.drop_last() =~= s);
                    assert forall|a: int, b: int| 0 <= a < b < v@.len() implies (#[trigger] v@[a]).0@
                        != (#[trigger] v@[b]).0@ by {
                        if b < s.len() {
                            assert(s[a].0@ != s[b].0@);
                        } else {
                            assert(v@[a] == s[a]);
                        }
                    }
                }
                self.assignments = v;
                None
            },
        }
    }

    /// The (monitor, video) pairs, each monitor once, in no particular order.
    pub fn entries(&self) -> (r: Vec<(String, String)>)
        ensures
            keys_distinct(r@),
            map_of(r@) == self@,
    {
        proof {
            use_type_invariant(self);
        }
        let mut r: Vec<(String, String)> = Vec::new();
        let mut i: usize = 0;
        while i < self.assignments.len()
            invariant
                i <= self.assignments.len(),
                r@ == self.assignments@.take(i as int),
            decreases self.assignments.len() - i,
        {
            r.push(copy_pair(&self.assignments[i]));
            assert(r@ =~= self.assignments@.take(i + 1));
            i = i + 1;
        }
        assert(r@ =~= self.assignments@);
        r
    }
}

/// What a write gives back: after assigning `video` to `monitor`, reading
/// `monitor` gives `video`, and every other monitor reads as before.
pub proof fn assignment_read_after_write(
    before: Map<Seq<char>, Seq<char>>,
    monitor: Seq<char>,
    video: Seq<char>,
    other: Seq<char>,
)
    ensures
        before.insert(monitor, video).dom().contains(monitor),
        before.insert(monitor, video)[monitor] == video,
        other != monitor ==> (before.insert(monitor, video).dom().contains(other)
            == before.dom().contains(other)),
        other != monitor && before.dom().contains(other) ==> before.insert(monitor, video)[other]
            == before[other],
{
}

} // verus!
