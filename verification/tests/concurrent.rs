use gity::index_cache::{build_commit_index, Admission, CacheEntry, CacheKey, Settlement};
use gity::search::find_in_index;
use std::sync::Arc;
use std::time::{SystemTime, UNIX_EPOCH};

fn fresh_repo(name: &str) -> String {
    let nanos = SystemTime::now().duration_since(UNIX_EPOCH).unwrap().as_nanos();
    let path = format!("/tmp/gity-tests/concurrent-{}-{}", name, nanos);
    let mut opts = git2::RepositoryInitOptions::new();
    opts.initial_head("main");
    let repo = git2::Repository::init_opts(&path, &opts).unwrap();
    let mut last: Option<git2::Oid> = None;
    for (i, message) in ["add parser", "fix parser", "add lexer", "fix lexer"].iter().enumerate() {
        let blob = repo.blob(format!("{}", i).as_bytes()).unwrap();
        let mut builder = repo.treebuilder(None).unwrap();
        builder.insert("f", blob, 0o100644).unwrap();
        let tree = repo.find_tree(builder.write().unwrap()).unwrap();
        let sig =
            git2::Signature::new("Ada", "a@b", &git2::Time::new(1_700_000_000 + i as i64, 0))
                .unwrap();
        let parents: Vec<git2::Commit> =
            last.map(|p| repo.find_commit(p).unwrap()).into_iter().collect();
        let refs: Vec<&git2::Commit> = parents.iter().collect();
        last = Some(
            repo.commit(Some("refs/heads/main"), &sig, &sig, message, &tree, &refs).unwrap(),
        );
    }
    path
}

/// One caller of the cache, stepped by hand so that callers can be
/// interleaved at will.
struct Caller {
    key: CacheKey,
    waited: bool,
    building: Option<u64>,
    ids: Option<Arc<Vec<gity::commit_id::CommitId>>>,
}

impl Caller {
    fn new(path: &str) -> Self {
        Caller { key: CacheKey::new(path, "main"), waited: false, building: None, ids: None }
    }

    /// Asks the entry what to do. Says whether the caller was told to
    /// build.
    fn ask(&mut self, entry: &mut CacheEntry) -> bool {
        let told = if self.waited { entry.wake(&self.key) } else { entry.arrive(&self.key) };
        match told {
            Admission::Ready(ids) => self.ids = Some(ids),
            Admission::Failed(e) => panic!("build failed: {}", e.to_string()),
            Admission::Wait => self.waited = true,
            Admission::Build { generation } => {
                self.building = Some(generation);
                return true;
            }
        }
        false
    }

    /// Builds outside the entry and settles.
    fn build(&mut self, entry: &mut CacheEntry) {
        let generation = self.building.take().unwrap();
        let outcome = build_commit_index(&self.key.repository_path, "main", None);
        match entry.settle(&self.key, generation, outcome) {
            Settlement::Stored(ids) => self.ids = Some(ids),
            Settlement::Failed(e) => panic!("build failed: {}", e.to_string()),
            Settlement::Stale => self.waited = false,
        }
    }

    fn search(&self, query: &str) -> Vec<u32> {
        let repo = git2::Repository::open(&self.key.repository_path).unwrap();
        find_in_index(&repo, self.ids.as_ref().unwrap(), query, None).unwrap().positions
    }
}

#[test]
fn two_interleaved_searches_share_one_list() {
    let path = fresh_repo("two");
    let reference = build_commit_index(&path, "main", None).unwrap();
    let mut entry = CacheEntry::new();
    let mut first = Caller::new(&path);
    let mut second = Caller::new(&path);
    let mut builds = 0;
    builds += first.ask(&mut entry) as usize;
    builds += second.ask(&mut entry) as usize;
    builds += second.ask(&mut entry) as usize;
    assert!(second.ids.is_none());
    first.build(&mut entry);
    builds += second.ask(&mut entry) as usize;
    assert_eq!(builds, 1);
    let fixes = first.search("FIX");
    let adds = second.search("add");
    assert_eq!(fixes, vec![0, 2]);
    assert_eq!(adds, vec![1, 3]);
    assert!(Arc::ptr_eq(first.ids.as_ref().unwrap(), second.ids.as_ref().unwrap()));
    match entry.arrive(&CacheKey::new(&path, "main")) {
        Admission::Ready(ids) => assert_eq!(*ids, reference),
        _ => panic!("expected the finished list"),
    }
}

#[test]
fn many_interleaved_callers_cause_one_build() {
    let path = fresh_repo("many");
    let mut entry = CacheEntry::new();
    let mut callers: Vec<Caller> = (0..8).map(|_| Caller::new(&path)).collect();
    let mut builders: Vec<usize> = Vec::new();
    for (i, caller) in callers.iter_mut().enumerate() {
        if caller.ask(&mut entry) {
            builders.push(i);
        }
    }
    assert_eq!(builders, vec![0]);
    callers[0].build(&mut entry);
    for caller in callers.iter_mut().skip(1) {
        assert!(!caller.ask(&mut entry));
    }
    let shared = callers[0].ids.clone().unwrap();
    for caller in &callers {
        assert!(Arc::ptr_eq(caller.ids.as_ref().unwrap(), &shared));
        assert_eq!(caller.search("parser"), vec![2, 3]);
    }
}
