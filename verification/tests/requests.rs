use trilobyte::engine::{
    decrypt_item, encrypt_fresh_item, encrypt_static_item, key_create_item, FsAction,
};
use trilobyte::errors::{Family, OpError};

#[test]
fn key_create_writes_key_of_requested_size() {
    let plan = key_create_item(16, &b"dir/name.txt".to_vec()).unwrap();
    assert_eq!(plan.len(), 1);
    match &plan[0] {
        FsAction::Write { path, contents } => {
            assert_eq!(path, &b"dir/name.cef".to_vec());
            assert_eq!(contents.len(), 16);
        }
        _ => panic!("expected a write"),
    }
}

#[test]
fn key_create_rejects_empty_file_name() {
    assert_eq!(key_create_item(4, &b"dir/".to_vec()), Err(OpError::EmptyFileName));
}

#[test]
fn fresh_encrypt_plans_key_and_ciphertext() {
    let plan = encrypt_fresh_item(&b"dir/name.txt".to_vec(), &Some(vec![1, 2, 3])).unwrap();
    assert_eq!(plan.len(), 2);
    let key = match &plan[0] {
        FsAction::Write { path, contents } => {
            assert_eq!(path, &b"dir/name.cef".to_vec());
            assert_eq!(contents.len(), 3);
            contents.clone()
        }
        _ => panic!("expected a key write"),
    };
    match &plan[1] {
        FsAction::Write { path, contents } => {
            assert_eq!(path, &b"dir/name.txt.csd".to_vec());
            assert_eq!(contents.len(), 3);
            assert_eq!(contents[0], 1 ^ key[0]);
            assert_eq!(contents[1], 2 ^ key[1]);
            assert_eq!(contents[2], 3 ^ key[2]);
        }
        _ => panic!("expected a ciphertext write"),
    }
}

#[test]
fn fresh_encrypt_rejects_missing_file() {
    assert_eq!(encrypt_fresh_item(&b"gone.txt".to_vec(), &None), Err(OpError::MissingInput));
}

#[test]
fn fresh_encrypt_rejects_missing_extension() {
    assert_eq!(
        encrypt_fresh_item(&b"dir/name".to_vec(), &Some(vec![1])),
        Err(OpError::MissingExtension)
    );
}

#[test]
fn static_encrypt_writes_ciphertext_only() {
    let plan = encrypt_static_item(
        &b"dir/name.txt".to_vec(),
        &Some(vec![0x41, 0x42]),
        &Some(vec![0x01, 0x02, 0x03]),
    )
    .unwrap();
    assert_eq!(plan.len(), 1);
    match &plan[0] {
        FsAction::Write { path, contents } => {
            assert_eq!(path, &b"dir/name.txt.csd".to_vec());
            assert_eq!(contents, &vec![0x40, 0x40]);
        }
        _ => panic!("expected a ciphertext write"),
    }
}

#[test]
fn static_encrypt_rejects_short_key_without_touching_files() {
    let r = encrypt_static_item(
        &b"dir/name.txt".to_vec(),
        &Some(vec![1, 2, 3]),
        &Some(vec![9]),
    );
    assert_eq!(r, Err(OpError::KeyTooShort));
}

#[test]
fn static_encrypt_rejects_missing_key() {
    let r = encrypt_static_item(&b"dir/name.txt".to_vec(), &Some(vec![1]), &None);
    assert_eq!(r, Err(OpError::MissingKey));
}

#[test]
fn decrypt_plans_stage_purge_commit() {
    let plan = decrypt_item(
        &b"name.ext.csd".to_vec(),
        &b"name.cef".to_vec(),
        &Some(vec![0x40]),
        &Some(vec![0x01]),
    )
    .unwrap();
    assert_eq!(plan.len(), 4);
    match &plan[0] {
        FsAction::Write { path, contents } => {
            assert_eq!(path, &b"./name.part".to_vec());
            assert_eq!(contents, &vec![0x41]);
        }
        _ => panic!("expected the staging write first"),
    }
    match &plan[1] {
        FsAction::Delete { path } => assert_eq!(path, &b"name.ext.csd".to_vec()),
        _ => panic!("expected the ciphertext purge second"),
    }
    match &plan[2] {
        FsAction::Delete { path } => assert_eq!(path, &b"name.cef".to_vec()),
        _ => panic!("expected the key purge third"),
    }
    match &plan[3] {
        FsAction::Rename { from, to } => {
            assert_eq!(from, &b"./name.part".to_vec());
            assert_eq!(to, &b"./name".to_vec());
        }
        _ => panic!("expected the commit rename last"),
    }
}

#[test]
fn decrypt_rejects_short_key() {
    let r = decrypt_item(
        &b"name.ext.csd".to_vec(),
        &b"name.cef".to_vec(),
        &Some(vec![1, 2]),
        &Some(vec![9]),
    );
    assert_eq!(r, Err(OpError::KeyTooShort));
}

#[test]
fn decrypt_rejects_missing_inputs() {
    let r = decrypt_item(&b"a.b.csd".to_vec(), &b"a.cef".to_vec(), &None, &Some(vec![1]));
    assert_eq!(r, Err(OpError::MissingInput));
    let r = decrypt_item(&b"a.b.csd".to_vec(), &b"a.cef".to_vec(), &Some(vec![1]), &None);
    assert_eq!(r, Err(OpError::MissingKey));
}

#[test]
fn error_codes_are_distinct() {
    let all = [
        OpError::MissingInput,
        OpError::MissingKey,
        OpError::EmptyFileName,
        OpError::MissingExtension,
        OpError::KeyTooShort,
        OpError::CreateFailed,
        OpError::WriteFailed,
        OpError::DeleteFailed,
        OpError::RenameFailed,
    ];
    for (i, a) in all.iter().enumerate() {
        for (j, b) in all.iter().enumerate() {
            if i != j {
                assert_ne!(a.code(), b.code());
            }
        }
    }
    assert_eq!(OpError::KeyTooShort.code(), "key-too-short");
}

#[test]
fn family_names() {
    assert_eq!(Family::Generation.name(), "Generation");
    assert_eq!(Family::Encryption.name(), "Encryption");
    assert_eq!(Family::Decryption.name(), "Decryption");
}
