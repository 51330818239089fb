use backy_core::chunker::{MAX_CHUNK_SIZE, MIN_CHUNK_SIZE};
use backy_core::{
    append_entry, chunk_bytes, decrypt, encrypt, encrypt_with, entry_ids, initial_index, local_blob_path,
    record_blob, repo_paths, split_chunks, CryptoError, IndexEntry, RepoError,
};

fn pseudo_random(len: usize, seed: u64) -> Vec<u8> {
    let mut state = seed;
    let mut out = Vec::with_capacity(len);
    for _ in 0..len {
        state = state
            .wrapping_mul(6364136223846793005)
            .wrapping_add(1442695040888963407);
        out.push((state >> 33) as u8);
    }
    out
}

#[test]
fn it_works() {
    let result = backy_core::add(2, 2);
    assert_eq!(result, 4);
}

#[test]
fn roundtrip() {
    let password = "secret";
    let data = b"Hello, Tauri!";
    let (salt, nonce, ct) = encrypt(data, password).expect("encrypt failed");
    let pt = decrypt(&salt, &nonce, &ct, password).expect("decrypt failed");
    assert_eq!(pt, data);
}

#[test]
fn roundtrip_empty_payload() {
    let (salt, nonce, ct) = encrypt(&[], "pw").expect("encrypt failed");
    assert_eq!(ct.len(), 16);
    let pt = decrypt(&salt, &nonce, &ct, "pw").expect("decrypt failed");
    assert!(pt.is_empty());
}

#[test]
fn envelope_shapes() {
    let data = b"abc";
    let (salt, nonce, ct) = encrypt(data, "pw").unwrap();
    assert_eq!(salt.len(), 22);
    assert_eq!(nonce.len(), 12);
    assert_eq!(ct.len(), data.len() + 16);
    assert_ne!(&ct[..3], &data[..]);
}

#[test]
fn wrong_password_fails_authentication() {
    let (salt, nonce, ct) = encrypt(b"top secret", "right").unwrap();
    assert_eq!(decrypt(&salt, &nonce, &ct, "wrong"), Err(CryptoError::Authentication));
}

#[test]
fn tampered_ciphertext_fails_authentication() {
    let (salt, nonce, mut ct) = encrypt(b"payload", "pw").unwrap();
    ct[0] ^= 1;
    assert_eq!(decrypt(&salt, &nonce, &ct, "pw"), Err(CryptoError::Authentication));
}

#[test]
fn two_encryptions_differ() {
    let (s1, n1, c1) = encrypt(b"same data", "pw").unwrap();
    let (s2, n2, c2) = encrypt(b"same data", "pw").unwrap();
    assert_ne!(n1, n2);
    assert_ne!(s1, s2);
    assert_ne!(c1, c2);
}

#[test]
fn bad_nonce_length_is_rejected() {
    let salt = b"abcdefghijklmnopqrstuv".to_vec();
    assert_eq!(decrypt(&salt, &[0u8; 11], &[0u8; 20], "pw"), Err(CryptoError::InvalidNonce));
}

#[test]
fn short_salt_is_rejected() {
    assert_eq!(decrypt(b"short", &[0u8; 12], &[0u8; 20], "pw"), Err(CryptoError::KeyDerivation));
}

#[test]
fn chunking_empty_input_gives_no_chunk() {
    assert!(chunk_bytes(&[]).is_empty());
}

#[test]
fn chunking_small_input_gives_one_chunk() {
    let data = pseudo_random(1000, 7);
    let chunks = chunk_bytes(&data);
    assert_eq!(chunks, vec![data]);
}

#[test]
fn chunking_covers_input_within_bounds() {
    let data = pseudo_random(3 * MAX_CHUNK_SIZE + 12345, 42);
    let chunks = chunk_bytes(&data);
    assert!(chunks.len() >= 3);
    let joined: Vec<u8> = chunks.concat();
    assert_eq!(joined, data);
    for (i, c) in chunks.iter().enumerate() {
        assert!(!c.is_empty() && c.len() <= MAX_CHUNK_SIZE);
        if i + 1 < chunks.len() {
            assert!(c.len() >= MIN_CHUNK_SIZE);
        }
    }
}

#[test]
fn chunking_is_deterministic() {
    let data = pseudo_random(2 * MAX_CHUNK_SIZE, 9);
    assert_eq!(chunk_bytes(&data), chunk_bytes(&data));
}

#[test]
fn constant_input_is_cut_at_the_maximum() {
    let data = vec![0u8; 2 * MAX_CHUNK_SIZE + 5];
    let lens: Vec<usize> = chunk_bytes(&data).iter().map(|c| c.len()).collect();
    assert_eq!(lens, vec![MAX_CHUNK_SIZE, MAX_CHUNK_SIZE, 5]);
}

#[test]
fn split_chunks_follows_lengths() {
    let data = vec![1u8, 2, 3, 4, 5, 6];
    let chunks = split_chunks(&data, &vec![2, 0, 3, 1]);
    assert_eq!(chunks, vec![vec![1, 2], vec![], vec![3, 4, 5], vec![6]]);
}

#[test]
fn test_save_blob_local() {
    let saved = local_blob_path("/tmp/dest", "data123");
    assert!(saved.ends_with("data123.blob"));
    assert_eq!(saved, "/tmp/dest/data123.blob");
}

#[test]
fn local_path_default_extension() {
    assert!(local_blob_path("/backups", "report").ends_with("report.blob"));
}

#[test]
fn local_path_keeps_extension() {
    let p = local_blob_path("/backups/", "report.txt");
    assert!(p.ends_with("report.txt"));
    assert_eq!(p, "/backups/report.txt");
}

#[test]
fn local_path_hidden_name_gets_extension() {
    assert_eq!(local_blob_path("d", ".hidden"), "d/.hidden.blob");
    assert_eq!(local_blob_path("d", "a."), "d/a.");
    assert_eq!(local_blob_path("", "x"), "x.blob");
}

#[test]
fn test_init_repo_empty() {
    let paths = repo_paths(Some("/data".to_string()), None).unwrap();
    assert_eq!(paths.repo_dir, "/data/repo");
    assert_eq!(paths.index_file, "/data/repo/index.json");
    assert_eq!(initial_index(false), Some("[]".to_string()));
}

#[test]
fn init_keeps_existing_index() {
    assert_eq!(initial_index(true), None);
}

#[test]
fn repo_paths_fall_back_to_platform_dir() {
    let paths = repo_paths(None, Some("/home/u/.local/share/backy/".to_string())).unwrap();
    assert_eq!(paths.repo_dir, "/home/u/.local/share/backy/repo");
    assert!(matches!(repo_paths(None, None), Err(RepoError::NoDataDir)));
    let over = repo_paths(Some("/x".to_string()), Some("/y".to_string())).unwrap();
    assert_eq!(over.repo_dir, "/x/repo");
}

#[test]
fn test_save_and_list_blobs() {
    let mut index: Vec<IndexEntry> = Vec::new();
    let blob = b"hello".to_vec();
    let id = record_blob(&mut index, blob.len());
    let ids = entry_ids(&index);
    assert_eq!(ids.len(), 1);
    assert_eq!(ids[0], id);
    assert_eq!(index[0].filename, format!("{}.blob", id));
    assert_eq!(index[0].length, 5);
}

#[test]
fn many_saves_give_distinct_ids() {
    let mut index: Vec<IndexEntry> = Vec::new();
    let payloads = ["a", "bb", "ccc", "dddd"];
    let mut got = Vec::new();
    for p in payloads.iter() {
        got.push(record_blob(&mut index, p.len()));
    }
    assert_eq!(index.len(), 4);
    for i in 0..4 {
        assert_eq!(index[i].length, payloads[i].len());
        assert_eq!(got[i].len(), 36);
        for j in 0..i {
            assert_ne!(got[i], got[j]);
        }
    }
    assert_eq!(entry_ids(&index), got);
}

#[test]
fn append_entry_names_file_after_id() {
    let mut index: Vec<IndexEntry> = Vec::new();
    append_entry(&mut index, "abc".to_string(), 3);
    assert_eq!(index[0].id, "abc");
    assert_eq!(index[0].filename, "abc.blob");
    assert_eq!(index[0].length, 3);
}

fn is_uuid_v4_text(s: &str) -> bool {
    let b = s.as_bytes();
    b.len() == 36
        && b.iter().enumerate().all(|(i, c)| {
            if i == 8 || i == 13 || i == 18 || i == 23 {
                *c == b'-'
            } else {
                c.is_ascii_digit() || (b'a'..=b'f').contains(c)
            }
        })
        && b[14] == b'4'
        && matches!(b[19], b'8' | b'9' | b'a' | b'b')
}

#[test]
fn recorded_ids_are_uuid_v4_text() {
    let mut index: Vec<IndexEntry> = Vec::new();
    for n in 0..5 {
        let id = record_blob(&mut index, n);
        assert!(is_uuid_v4_text(&id), "{}", id);
    }
}

#[test]
fn encrypt_with_is_deterministic_and_opens() {
    let salt = b"abcdefghijklmnopqrstuv".to_vec();
    let nonce = [7u8; 12];
    let c1 = encrypt_with(b"payload", "pw", &salt, &nonce).unwrap();
    let c2 = encrypt_with(b"payload", "pw", &salt, &nonce).unwrap();
    assert_eq!(c1, c2);
    assert_eq!(c1.len(), 7 + 16);
    assert_eq!(decrypt(&salt, &nonce, &c1, "pw"), Ok(b"payload".to_vec()));
}

#[test]
fn encrypt_with_rejects_bad_inputs() {
    let salt = b"abcdefghijklmnopqrstuv".to_vec();
    assert_eq!(encrypt_with(b"x", "pw", &salt, &[0u8; 8]), Err(CryptoError::InvalidNonce));
    assert_eq!(encrypt_with(b"x", "pw", b"tiny", &[0u8; 12]), Err(CryptoError::KeyDerivation));
}

#[test]
fn short_ciphertext_fails_authentication() {
    let salt = b"abcdefghijklmnopqrstuv".to_vec();
    assert_eq!(decrypt(&salt, &[0u8; 12], &[0u8; 15], "pw"), Err(CryptoError::Authentication));
}

#[test]
fn plaintext_is_tag_shorter_than_ciphertext() {
    let (salt, nonce, ct) = encrypt(b"twelve bytes", "pw").unwrap();
    let pt = decrypt(&salt, &nonce, &ct, "pw").unwrap();
    assert_eq!(pt.len() + 16, ct.len());
}
