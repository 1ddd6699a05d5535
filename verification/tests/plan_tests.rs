use augmcp::blob::BlobUpload;
use augmcp::fingerprint::hash_blob_name;
use augmcp::indexer::{incremental_plan, Aliases, ProjectsIndex};
use augmcp::service::{commit_index, plan_index, search_plan};

fn blobs_of(items: &[(&str, &str)]) -> Vec<BlobUpload> {
    items
        .iter()
        .map(|(p, c)| BlobUpload { path: p.to_string(), content: c.to_string() })
        .collect()
}

#[test]
fn cold_start_marks_every_blob_new() {
    let blobs = blobs_of(&[("a.txt", "A\n"), ("b.txt", "B\n"), ("c.txt", "C\n")]);
    let projects = ProjectsIndex::new();
    let (new_blobs, all) = incremental_plan(&"proj".to_string(), &blobs, &projects);
    assert_eq!(new_blobs.len(), blobs.len());
    assert_eq!(all.len(), blobs.len());
    for (i, b) in blobs.iter().enumerate() {
        assert_eq!(all[i], hash_blob_name(&b.path, &b.content));
        assert_eq!(new_blobs[i].path, b.path);
        assert_eq!(new_blobs[i].content, b.content);
    }
}

#[test]
fn reindex_of_unchanged_project_has_no_new_blobs() {
    let key = "proj".to_string();
    let blobs = blobs_of(&[("a.txt", "A\n"), ("b.txt", "B\n")]);
    let mut projects = ProjectsIndex::new();
    let (first_new, first_all) = incremental_plan(&key, &blobs, &projects);
    assert_eq!(first_new.len(), 2);
    commit_index(&mut projects, key.clone(), first_all.clone());
    let (second_new, second_all) = incremental_plan(&key, &blobs, &projects);
    assert_eq!(second_new.len(), 0, "No changes should yield 0 new blobs");
    assert_eq!(second_all, first_all);
}

#[test]
fn changing_one_file_changes_exactly_one_fingerprint() {
    let key = "proj".to_string();
    let before = blobs_of(&[("a.txt", "A\n"), ("b.txt", "B\n"), ("c.txt", "C\n")]);
    let after = blobs_of(&[("a.txt", "A\n"), ("b.txt", "B changed\n"), ("c.txt", "C\n")]);
    let projects = ProjectsIndex::new();
    let (_, names_before) = incremental_plan(&key, &before, &projects);
    let (_, names_after) = incremental_plan(&key, &after, &projects);
    assert_eq!(names_before.len(), names_after.len());
    let differing: Vec<usize> = (0..names_before.len())
        .filter(|&i| names_before[i] != names_after[i])
        .collect();
    assert_eq!(differing, vec![1]);
}

#[test]
fn force_full_disregards_the_stored_list() {
    let key = "proj".to_string();
    let blobs = blobs_of(&[("a.txt", "A\n"), ("b.txt", "B\n")]);
    let mut projects = ProjectsIndex::new();
    let (_, all) = incremental_plan(&key, &blobs, &projects);
    commit_index(&mut projects, key.clone(), all);
    let (incremental_new, _) = plan_index(&projects, &key, &blobs, false);
    assert_eq!(incremental_new.len(), 0);
    let (full_new, full_all) = plan_index(&projects, &key, &blobs, true);
    assert_eq!(full_new.len(), 2);
    assert_eq!(full_all.len(), 2);
}

#[test]
fn commit_replaces_the_stored_list_wholesale() {
    let key = "proj".to_string();
    let mut projects = ProjectsIndex::new();
    commit_index(&mut projects, key.clone(), vec!["old1".to_string(), "old2".to_string()]);
    commit_index(&mut projects, key.clone(), vec!["new1".to_string()]);
    let stored = projects.get(&key).unwrap();
    assert_eq!(stored, &vec!["new1".to_string()]);
}

#[test]
fn search_plan_uses_cache_only_when_allowed_and_nonempty() {
    let key = "proj".to_string();
    let mut projects = ProjectsIndex::new();
    assert!(search_plan(&projects, &key, true).is_none());
    commit_index(&mut projects, key.clone(), vec![]);
    assert!(search_plan(&projects, &key, true).is_none());
    commit_index(&mut projects, key.clone(), vec!["n1".to_string()]);
    let cached = search_plan(&projects, &key, true).unwrap();
    assert_eq!(cached, vec!["n1".to_string()]);
    assert!(search_plan(&projects, &key, false).is_none());
}

#[test]
fn aliases_bind_and_resolve() {
    let mut aliases = Aliases::new();
    assert!(aliases.resolve(&"work".to_string()).is_none());
    aliases.set("work".to_string(), "/home/dev/project".to_string());
    assert_eq!(aliases.resolve(&"work".to_string()).unwrap(), "/home/dev/project");
    aliases.set("work".to_string(), "/srv/other".to_string());
    assert_eq!(aliases.resolve(&"work".to_string()).unwrap(), "/srv/other");
}
