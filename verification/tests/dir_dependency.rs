use node_evaluate::dir_dependency::{
    dir_dependency, dir_dependency_shallow, DirJoin, DirListed, DirStep, DirTask, DirectoryEntry,
    GlobRequest, ReadGlobResult, ShallowAwait, ShallowStep, Tracking,
};
use node_evaluate::path::FileSystemPath;

fn path(text: &str) -> FileSystemPath {
    FileSystemPath::new(text.to_string())
}

fn file(text: &str) -> DirectoryEntry {
    DirectoryEntry::File(path(text))
}

fn directory(text: &str) -> DirectoryEntry {
    DirectoryEntry::Directory(path(text))
}

fn everything_in(text: &str) -> Tracking {
    Tracking::ReadGlob(GlobRequest { path: path(text), glob: "**".to_string(), dot_files: false })
}

/// Listings by their handles, and the handles of the listings of directories.
struct Disk {
    listings: Vec<(Vec<&'static str>, Vec<&'static str>, Vec<u64>)>,
    directories: Vec<(&'static str, u64)>,
    unreadable: &'static str,
}

impl Disk {
    fn list(&self, glob: u64) -> Result<ReadGlobResult, String> {
        match self.listings.get(glob as usize) {
            Some((files, directories, inner)) => {
                let mut results: Vec<DirectoryEntry> = files.iter().map(|f| file(f)).collect();
                results.extend(directories.iter().map(|d| directory(d)));
                Ok(ReadGlobResult { results, inner: inner.clone() })
            }
            None => Err(format!("no listing {}", glob)),
        }
    }

    fn look(&self, tracking: &Tracking, seen: &mut Vec<String>) -> Result<(), String> {
        match tracking {
            Tracking::Track(path) if path.base() == self.unreadable => {
                Err(format!("cannot read {}", path.base()))
            }
            Tracking::Track(path) => {
                seen.push(path.base().to_string());
                Ok(())
            }
            Tracking::ReadGlob(request) => {
                let opened = self.directories.iter().find(|d| d.0 == request.path.base());
                self.whole(opened.unwrap().1, seen)
            }
            other => panic!("unexpected {:?}", other),
        }
    }

    fn shallow(&self, glob: u64, seen: &mut Vec<String>) -> Result<(), String> {
        let listing = dir_dependency_shallow(glob);
        assert_eq!(listing.awaited(), glob);
        let mut step = listing.listed(self.list(glob))?;
        while let ShallowStep::Await(waiting) = step {
            let looked = self.look(waiting.current(), seen);
            step = waiting.resolve(looked)?;
        }
        Ok(())
    }

    /// Runs a whole task; the tasks below end last first.
    fn whole(&self, glob: u64, seen: &mut Vec<String>) -> Result<(), String> {
        let (begun, listing) = dir_dependency(glob);
        assert_eq!(begun, DirTask::Shallow(glob));
        let listed = listing.listed(self.list(glob))?;
        assert_eq!(listed.begin.len(), self.list(glob)?.inner.len());
        let mut step = listed.next;
        loop {
            step = match step {
                DirStep::Join(join) => {
                    let last = join.pending().len() - 1;
                    let done = self.whole(join.pending()[last], seen);
                    join.resolve(last, done)?
                }
                DirStep::Shallow(shallow) => {
                    let done = self.shallow(shallow.awaited(), seen);
                    return shallow.resolve(done);
                }
            };
        }
    }
}

fn disk(unreadable: &'static str) -> Disk {
    Disk {
        listings: vec![
            (vec!["a", "b"], vec!["d"], vec![1, 2]),
            (vec!["x/1"], vec![], vec![3]),
            (vec!["y/1"], vec![], vec![]),
            (vec!["x/z/1"], vec![], vec![]),
            (vec!["d/1", "d/2"], vec![], vec![5]),
            (vec!["d/e/1"], vec![], vec![]),
        ],
        directories: vec![("d", 4)],
        unreadable,
    }
}

fn waiting(step: ShallowStep) -> ShallowAwait {
    match step {
        ShallowStep::Await(waiting) => waiting,
        ShallowStep::Done => panic!("nothing to wait for"),
    }
}

fn listed(results: Vec<DirectoryEntry>, inner: Vec<u64>) -> DirListed {
    dir_dependency(7).1.listed::<String>(Ok(ReadGlobResult { results, inner })).unwrap()
}

fn join(inner: Vec<u64>) -> DirJoin {
    match listed(Vec::new(), inner).next {
        DirStep::Join(join) => join,
        other => panic!("unexpected {:?}", other),
    }
}

fn shallow(results: Vec<DirectoryEntry>) -> ShallowStep {
    let listing = ReadGlobResult { results, inner: vec![1, 2] };
    dir_dependency_shallow(7).listed::<String>(Ok(listing)).unwrap()
}

#[test]
fn each_kind_of_entry_is_looked_at_in_its_way() {
    let mut step = shallow(vec![
        file("f"),
        directory("d"),
        DirectoryEntry::Symlink(path("s")),
        DirectoryEntry::Error,
        DirectoryEntry::Other(path("o")),
    ]);
    let expected = vec![
        Tracking::Track(path("f")),
        everything_in("d"),
        Tracking::ReadLink(path("s")),
        Tracking::GetType(path("o")),
    ];
    for tracking in expected {
        let await_one = waiting(step);
        assert_eq!(*await_one.current(), tracking);
        step = await_one.resolve::<String>(Ok(())).unwrap();
    }
    assert!(matches!(step, ShallowStep::Done));
}

#[test]
fn empty_listing_is_done() {
    assert!(matches!(shallow(Vec::new()), ShallowStep::Done));
    assert!(matches!(shallow(vec![DirectoryEntry::Error]), ShallowStep::Done));
}

#[test]
fn own_entries_are_begun_before_the_listing_is_known() {
    let (begun, listing) = dir_dependency(7);
    assert_eq!(begun, DirTask::Shallow(7));
    assert_eq!(listing.awaited(), 7);
}

#[test]
fn listings_below_are_all_begun_at_once() {
    let listed = listed(vec![file("a")], vec![4, 5, 6]);
    assert_eq!(listed.begin, vec![DirTask::Whole(4), DirTask::Whole(5), DirTask::Whole(6)]);
    match listed.next {
        DirStep::Join(join) => assert_eq!(join.pending(), &[4, 5, 6][..]),
        other => panic!("unexpected {:?}", other),
    }
}

#[test]
fn listings_below_are_waited_for_in_any_order() {
    let step = join(vec![4, 5, 6]).resolve::<String>(1, Ok(())).unwrap();
    let step = match step {
        DirStep::Join(join) => {
            assert_eq!(join.pending(), &[4, 6][..]);
            join.resolve::<String>(1, Ok(())).unwrap()
        }
        other => panic!("unexpected {:?}", other),
    };
    match step {
        DirStep::Join(join) => {
            assert_eq!(join.pending(), &[4][..]);
            match join.resolve::<String>(0, Ok(())).unwrap() {
                DirStep::Shallow(shallow) => {
                    assert_eq!(shallow.awaited(), 7);
                    assert_eq!(shallow.resolve::<String>(Ok(())), Ok(()));
                }
                other => panic!("unexpected {:?}", other),
            }
        }
        other => panic!("unexpected {:?}", other),
    }
}

#[test]
fn failed_task_below_ends_the_whole_task() {
    assert_eq!(join(vec![4, 5]).resolve(1, Err("unreadable")).err(), Some("unreadable"));
}

#[test]
fn listing_without_listings_below_waits_for_its_own_entries() {
    let listed = listed(vec![file("a")], Vec::new());
    assert!(listed.begin.is_empty());
    match listed.next {
        DirStep::Shallow(shallow) => {
            assert_eq!(shallow.resolve(Err("unreadable")), Err("unreadable"))
        }
        other => panic!("unexpected {:?}", other),
    }
}

#[test]
fn failed_listing_ends_both_tasks() {
    assert_eq!(dir_dependency(7).1.listed(Err("gone")).err(), Some("gone"));
    assert_eq!(dir_dependency_shallow(7).listed(Err("gone")).err(), Some("gone"));
}

#[test]
fn failed_look_ends_the_shallow_task() {
    let step = waiting(shallow(vec![file("a"), file("b")]));
    assert_eq!(*step.current(), Tracking::Track(path("a")));
    assert_eq!(step.resolve(Err("unreadable")).err(), Some("unreadable"));
}

#[test]
fn finished_task_has_looked_at_everything() {
    let mut seen = Vec::new();
    assert_eq!(disk("").whole(0, &mut seen), Ok(()));
    assert_eq!(seen, vec!["y/1", "x/z/1", "x/1", "a", "b", "d/e/1", "d/1", "d/2"]);
}

#[test]
fn unreadable_file_at_any_depth_fails_the_task() {
    for name in ["b", "x/z/1", "d/e/1"] {
        let failed = disk(name).whole(0, &mut Vec::new());
        assert_eq!(failed, Err(format!("cannot read {}", name)));
    }
}
