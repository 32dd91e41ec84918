//! Description of a generation run: a tree of directories, each with optional input and
//! output directories, holding protocol files (input XML and output source) and further
//! directories. The tree is walked depth first as a stream of events.
use vstd::prelude::*;

verus! {

/// One protocol: its input file and the output file generated from it.
pub struct Protocol {
    pub in_file: String,
    pub out_file: String,
    pub formatted: bool,
}

pub enum Child {
    Dir(Dir),
    Proto(Protocol),
}

/// A directory of the tree.
pub struct Dir {
    pub in_dir: Option<String>,
    pub out_dir: Option<String>,
    pub children: Vec<Child>,
}

/// A step of the depth-first walk.
#[allow(inconsistent_fields)]
pub enum Event {
    /// A directory is entered, with the paths it adds to the input and output paths.
    EnterDir { in_dir: Option<String>, out_dir: Option<String> },
    /// A protocol of the current directory.
    Protocol { in_file: String, out_file: String, formatted: bool },
    /// The current directory is left; the flags say which paths it had added.
    ExitDir { in_dir: bool, out_dir: bool },
}

/// The view of an optional path.
pub open spec fn opt_view(o: Option<String>) -> Option<Seq<char>> {
    match o {
        Some(s) => Some(s@),
        None => None,
    }
}

impl Dir {
    pub fn new() -> (r: Dir)
        ensures
            r.in_dir is None,
            r.out_dir is None,
            r.children@.len() == 0,
    {
        Dir { in_dir: None, out_dir: None, children: Vec::new() }
    }

    /// Sets the directory that input paths below are relative to.
    pub fn in_dir(self, path: &str) -> (r: Dir)
        ensures
            opt_view(r.in_dir) == Some(path@),
            r.out_dir == self.out_dir,
            r.children == self.children,
    {
        let mut d = self;
        d.in_dir = Some(path.to_owned());
        d
    }

    /// Sets the directory that output paths below are relative to.
    pub fn out_dir(self, path: &str) -> (r: Dir)
        ensures
            opt_view(r.out_dir) == Some(path@),
            r.in_dir == self.in_dir,
            r.children == self.children,
    {
        let mut d = self;
        d.out_dir = Some(path.to_owned());
        d
    }

    /// Adds a protocol, generated from `in_file` into `out_file`.
    pub fn protocol(self, in_file: &str, out_file: &str) -> (r: Dir)
        ensures
            r.in_dir == self.in_dir,
            r.out_dir == self.out_dir,
            r.children@.len() == self.children@.len() + 1,
            r.children@.take(self.children@.len() as int) == self.children@,
            r.children@.last() matches Child::Proto(p) && p.in_file@ == in_file@ && p.out_file@ == out_file@
                && p.formatted,
    {
        let mut d = self;
        d.children.push(Child::Proto(Protocol { in_file: in_file.to_owned(), out_file: out_file.to_owned(), formatted: true }));
        assert(d.children@.take(self.children@.len() as int) =~= self.children@);
        d
    }

    /// Adds protocols, one per pair of input and output file, in order.
    pub fn protocols(self, paths: &[(&str, &str)]) -> (r: Dir)
        ensures
            r.in_dir == self.in_dir,
            r.out_dir == self.out_dir,
            r.children@.len() == self.children@.len() + paths@.len(),
            r.children@.take(self.children@.len() as int) == self.children@,
            forall|i: int| 0 <= i < paths@.len() ==> ((#[trigger] r.children@[self.children@.len() + i]) matches Child::Proto(p)
                && p.in_file@ == paths@[i].0@ && p.out_file@ == paths@[i].1@ && p.formatted),
    {
        let mut d = self;
        let n0 = d.children.len();
        let mut i: usize = 0;
        while i < paths.len()
            invariant
                i <= paths@.len(),
                n0 == self.children@.len(),
                d.in_dir == self.in_dir,
                d.out_dir == self.out_dir,
                d.children@.len() == n0 + i,
                d.children@.take(n0 as int) == self.children@,
                forall|k: int| 0 <= k < i ==> ((#[trigger] d.children@[n0 + k]) matches Child::Proto(p)
                    && p.in_file@ == paths@[k].0@ && p.out_file@ == paths@[k].1@ && p.formatted),
            decreases paths@.len() - i,
        {
            let (in_file, out_file) = paths[i];
            d.children.push(Child::Proto(Protocol { in_file: in_file.to_owned(), out_file: out_file.to_owned(), formatted: true }));
            i += 1;
            assert(d.children@.take(n0 as int) =~= self.children@);
        }
        d
    }

    /// Adds a subdirectory.
    pub fn dir(self, dir: Dir) -> (r: Dir)
        ensures
            r.in_dir == self.in_dir,
            r.out_dir == self.out_dir,
            r.children@ == self.children@.push(Child::Dir(dir)),
    {
        let mut d = self;
        d.children.push(Child::Dir(dir));
        d
    }

    /// The walk of this tree.
    pub fn into_iter(self) -> (r: IntoIter)
        ensures
            r.first,
            r.stack@ == seq![self],
    {
        let mut stack: Vec<Dir> = Vec::new();
        stack.push(self);
        IntoIter { first: true, stack }
    }
}

fn clone_path(o: &Option<String>) -> (r: Option<String>)
    ensures
        r == *o,
{
    match o {
        Some(s) => Some(s.clone()),
        None => None,
    }
}

/// A depth-first walk over a tree of directories: the directories entered and not yet left,
/// innermost last, each holding the children not yet visited. Children are visited from the
/// last added to the first.
pub struct IntoIter {
    pub first: bool,
    pub stack: Vec<Dir>,
}

impl IntoIter {
    /// The next event of the walk, or `None` once every directory has been left.
    pub fn next(&mut self) -> (r: Option<Event>)
        ensures
            old(self).stack@.len() == 0 ==> r is None && final(self).stack@ == old(self).stack@ && final(self).first
                == old(self).first,
            old(self).stack@.len() > 0 && old(self).first ==> {
                let top = old(self).stack@.last();
                &&& r matches Some(Event::EnterDir { in_dir, out_dir }) && in_dir == top.in_dir && out_dir == top.out_dir
                &&& !final(self).first
                &&& final(self).stack@ == old(self).stack@
            },
            old(self).stack@.len() > 0 && !old(self).first ==> {
                let top = old(self).stack@.last();
                let rest = old(self).stack@.drop_last();
                &&& !final(self).first
                &&& top.children@.len() == 0 ==> final(self).stack@ == rest && (r matches Some(
                    Event::ExitDir { in_dir, out_dir },
                ) && in_dir == top.in_dir is Some && out_dir == top.out_dir is Some)
                &&& top.children@.len() > 0 ==> {
                    &&& final(self).stack@.len() >= rest.len() + 1
                    &&& final(self).stack@.take(rest.len() as int) == rest
                    &&& final(self).stack@[rest.len() as int].in_dir == top.in_dir
                    &&& final(self).stack@[rest.len() as int].out_dir == top.out_dir
                    &&& final(self).stack@[rest.len() as int].children@ == top.children@.drop_last()
                    &&& match top.children@.last() {
                        Child::Dir(d) => {
                            &&& final(self).stack@.len() == rest.len() + 2
                            &&& final(self).stack@[rest.len() + 1int] == d
                            &&& r matches Some(Event::EnterDir { in_dir, out_dir }) && in_dir == d.in_dir
                                && out_dir == d.out_dir
                        },
                        Child::Proto(p) => {
                            &&& final(self).stack@.len() == rest.len() + 1
                            &&& r matches Some(Event::Protocol { in_file, out_file, formatted }) && in_file
                                == p.in_file && out_file == p.out_file && formatted == p.formatted
                        },
                    }
                }
            },
    {
        let mut top = match self.stack.pop() {
            Some(t) => t,
            None => return None,
        };
        if self.first {
            self.first = false;
            let ev = Event::EnterDir { in_dir: clone_path(&top.in_dir), out_dir: clone_path(&top.out_dir) };
            self.stack.push(top);
            return Some(ev);
        }
        match top.children.pop() {
            Some(Child::Dir(d)) => {
                let ev = Event::EnterDir { in_dir: clone_path(&d.in_dir), out_dir: clone_path(&d.out_dir) };
                self.stack.push(top);
                self.stack.push(d);
                Some(ev)
            },
            Some(Child::Proto(p)) => {
                self.stack.push(top);
                Some(Event::Protocol { in_file: p.in_file, out_file: p.out_file, formatted: p.formatted })
            },
            None => Some(Event::ExitDir { in_dir: top.in_dir.is_some(), out_dir: top.out_dir.is_some() }),
        }
    }
}

} // verus!
