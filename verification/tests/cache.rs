//! The search for a model's directory.

use lisa_rs::cache::{
    hf_cache_root, path_below, resolve_snapshot, CacheAction, CacheEvent, SnapshotEntry,
};

/// A file system: directories, and files with their texts.
struct Disk {
    dirs: Vec<&'static str>,
    files: Vec<(&'static str, &'static str)>,
}

fn names_in(disk: &Disk, dir: &str) -> Vec<String> {
    let start = format!("{dir}/");
    let all = disk.dirs.iter().chain(disk.files.iter().map(|(path, _)| path));
    all.filter_map(|path| path.strip_prefix(&start))
        .filter(|rest| !rest.contains('/'))
        .map(|rest| rest.to_string())
        .collect()
}

fn resolve(disk: &Disk, model: &str, hf: Option<&str>, home: Option<&str>) -> Result<String, String> {
    let (mut search, mut action) =
        resolve_snapshot(model, hf.map(String::from), home.map(String::from));
    loop {
        let event = match action {
            CacheAction::IsDir(path) => CacheEvent::IsDir(disk.dirs.contains(&path.as_str())),
            CacheAction::Read(path) => CacheEvent::Text(
                disk.files.iter().find(|(name, _)| *name == path).map(|(_, text)| text.to_string()),
            ),
            CacheAction::List(path) => CacheEvent::Entries(
                names_in(disk, &path)
                    .into_iter()
                    .map(|name| {
                        let path = format!("{path}/{name}");
                        SnapshotEntry {
                            is_dir: disk.dirs.contains(&path.as_str()),
                            files: names_in(disk, &path),
                            path,
                        }
                    })
                    .collect(),
            ),
            CacheAction::Done(result) => return result,
        };
        action = search.step(event);
    }
}

const BASE: &str = "/h/.cache/huggingface/hub/models--o--n";

fn disk() -> Disk {
    Disk {
        dirs: vec![
            "/h/.cache/huggingface/hub/models--o--n/snapshots",
            "/h/.cache/huggingface/hub/models--o--n/snapshots/aaa",
            "/h/.cache/huggingface/hub/models--o--n/snapshots/bbb",
            "/h/.cache/huggingface/hub/models--o--n/snapshots/ccc",
        ],
        files: vec![
            ("/h/.cache/huggingface/hub/models--o--n/refs/main", " ccc\n"),
            ("/h/.cache/huggingface/hub/models--o--n/snapshots/aaa/config.json", ""),
            ("/h/.cache/huggingface/hub/models--o--n/snapshots/bbb/m.safetensors", ""),
        ],
    }
}

#[test]
fn resolves_cached_model_id() {
    let model = "mlx-community/Qwen3.8-27B-4bit";
    let disk = Disk {
        dirs: vec![
            "/h/.cache/huggingface/hub/models--mlx-community--Qwen3.8-27B-4bit/snapshots",
            "/h/.cache/huggingface/hub/models--mlx-community--Qwen3.8-27B-4bit/snapshots/1f",
        ],
        files: vec![
            ("/h/.cache/huggingface/hub/models--mlx-community--Qwen3.8-27B-4bit/snapshots/1f/m.safetensors", ""),
            ("/h/.cache/huggingface/hub/models--mlx-community--Qwen3.8-27B-4bit/snapshots/1f/tokenizer.json", ""),
        ],
    };
    let path = resolve(&disk, model, None, Some("/h")).unwrap();
    assert!(disk.dirs.contains(&path.as_str()));
    assert!(names_in(&disk, &path).contains(&"tokenizer.json".to_string()));
}

#[test]
fn resolves_explicit_directory() {
    let disk = Disk { dirs: vec!["/tmp"], files: vec![] };
    assert_eq!(resolve(&disk, "/tmp", None, None).unwrap(), "/tmp");
}

#[test]
fn the_current_snapshot_is_preferred() {
    assert_eq!(resolve(&disk(), "o/n", None, Some("/h")), Ok(format!("{BASE}/snapshots/ccc")));
}

#[test]
fn any_snapshot_with_weights_will_do() {
    let mut disk = disk();
    disk.files[0].1 = "gone";
    assert_eq!(resolve(&disk, "o/n", None, Some("/h")), Ok(format!("{BASE}/snapshots/bbb")));
    disk.files.remove(0);
    assert_eq!(resolve(&disk, "o/n", None, Some("/h")), Ok(format!("{BASE}/snapshots/bbb")));
    disk.files.pop();
    assert_eq!(
        resolve(&disk, "o/n", None, Some("/h")),
        Err(format!("no cached snapshot found for \"o/n\" under {BASE}/snapshots"))
    );
}

#[test]
fn models_that_are_nowhere() {
    assert_eq!(resolve(&disk(), "o/n", None, None), Err("HOME is not set".into()));
    assert_eq!(
        resolve(&disk(), "o/m", Some("/hf"), Some("/h")),
        Err("model \"o/m\" is neither an existing directory nor cached under /hf/hub".into())
    );
}

#[test]
fn paths_are_joined_as_std_joins_them() {
    for base in ["", "/", "a", "a/", "/a/b"] {
        for path in ["", "x", "/x", "x/y"] {
            let expected = std::path::Path::new(base).join(path);
            assert_eq!(path_below(base, path), expected.to_str().unwrap());
        }
    }
    assert_eq!(hf_cache_root(&Some("/hf".into()), &None), Ok("/hf/hub".into()));
    assert_eq!(
        hf_cache_root(&None, &Some("/h".into())),
        Ok("/h/.cache/huggingface/hub".into())
    );
    assert_eq!(hf_cache_root(&None, &None), Err("HOME is not set".into()));
}
