use sshkey_probe::space::{build_credential_space, partition};
use sshkey_probe::types::CredentialPair;

fn strings(items: &[&str]) -> Vec<String> {
    items.iter().map(|s| s.to_string()).collect()
}

fn numbered(count: usize) -> Vec<CredentialPair> {
    (0..count)
        .map(|i| CredentialPair { username: format!("u{i}"), password: format!("s{i}") })
        .collect()
}

fn names(pairs: &[CredentialPair]) -> Vec<(String, String)> {
    pairs.iter().map(|p| (p.username.clone(), p.password.clone())).collect()
}

#[test]
fn space_is_username_major() {
    let space = build_credential_space(&strings(&["alice", "bob"]), &strings(&["pw1", "pw2"]));
    assert_eq!(
        names(&space),
        vec![
            ("alice".to_string(), "pw1".to_string()),
            ("alice".to_string(), "pw2".to_string()),
            ("bob".to_string(), "pw1".to_string()),
            ("bob".to_string(), "pw2".to_string()),
        ]
    );
}

#[test]
fn space_has_product_size() {
    for users in 1..6usize {
        for passwords in 1..6usize {
            let u: Vec<String> = (0..users).map(|i| format!("user{i}")).collect();
            let p: Vec<String> = (0..passwords).map(|i| format!("pass{i}")).collect();
            let space = build_credential_space(&u, &p);
            assert_eq!(space.len(), users * passwords);
            for i in 0..users {
                for j in 0..passwords {
                    assert_eq!(space[i * passwords + j].username, u[i]);
                    assert_eq!(space[i * passwords + j].password, p[j]);
                }
            }
        }
    }
}

#[test]
fn space_keeps_duplicates() {
    let space = build_credential_space(&strings(&["root", "root"]), &strings(&["x"]));
    assert_eq!(
        names(&space),
        vec![("root".to_string(), "x".to_string()), ("root".to_string(), "x".to_string())]
    );
}

#[test]
fn space_of_empty_list_is_empty() {
    assert_eq!(build_credential_space(&strings(&[]), &strings(&["a", "b"])).len(), 0);
    assert_eq!(build_credential_space(&strings(&["a", "b"]), &strings(&[])).len(), 0);
    assert_eq!(build_credential_space(&strings(&[]), &strings(&[])).len(), 0);
}

#[test]
fn partition_gives_remainder_to_last_chunk() {
    let space = numbered(10);
    let chunks = partition(&space, 3);
    let sizes: Vec<usize> = chunks.iter().map(|c| c.len()).collect();
    assert_eq!(sizes, vec![3, 3, 4]);
    assert_eq!(chunks[0][0].username, "u0");
    assert_eq!(chunks[1][0].username, "u3");
    assert_eq!(chunks[2][0].username, "u6");
    assert_eq!(chunks[2][3].username, "u9");
}

#[test]
fn partition_concatenates_to_the_space() {
    for count in 0..25usize {
        for threads in 1..10usize {
            let space = numbered(count);
            let chunks = partition(&space, threads);
            assert_eq!(chunks.len(), threads);
            let mut joined: Vec<(String, String)> = Vec::new();
            for (i, chunk) in chunks.iter().enumerate() {
                if i + 1 < threads {
                    assert_eq!(chunk.len(), count / threads);
                } else {
                    assert_eq!(chunk.len(), count / threads + count % threads);
                }
                joined.extend(names(chunk));
            }
            assert_eq!(joined, names(&space));
        }
    }
}

#[test]
fn partition_with_one_thread_is_the_whole_space() {
    let space = numbered(7);
    let chunks = partition(&space, 1);
    assert_eq!(chunks.len(), 1);
    assert_eq!(names(&chunks[0]), names(&space));
}

#[test]
fn partition_with_more_threads_than_pairs() {
    let space = numbered(3);
    let chunks = partition(&space, 5);
    let sizes: Vec<usize> = chunks.iter().map(|c| c.len()).collect();
    assert_eq!(sizes, vec![0, 0, 0, 0, 3]);
    assert_eq!(names(&chunks[4]), names(&space));
}

#[test]
fn partition_of_empty_space() {
    let chunks = partition(&numbered(0), 4);
    let sizes: Vec<usize> = chunks.iter().map(|c| c.len()).collect();
    assert_eq!(sizes, vec![0, 0, 0, 0]);
}
