//! The engine: turns one operation request into a plan of storage
//! actions, and processes a whole batch of requests, reporting per-item
//! failures without aborting the rest.
//!
//! The engine itself never touches storage. The caller reads the input
//! files, hands their contents in (or `None` where a file is missing),
//! and executes the returned actions in order.

use vstd::prelude::*;
use crate::errors::OpError;
use crate::keygen::generate;
use crate::naming::{
    cipher_output_path, cipher_path_of, ext_of, file_name_of, key_output_path, key_path_of,
    plain_output_path, plain_path_of, split_path, tmp_output_path, tmp_path_of,
};
use crate::xor::{xor_apply, xor_seq};

verus! {

/// One storage action of a plan. A plan is executed in order, and the
/// first failing action abandons the rest of that item's plan.
#[derive(Debug, PartialEq, Eq)]
pub enum FsAction {
    /// Create or overwrite the file at `path` with `contents`.
    Write { path: Vec<u8>, contents: Vec<u8> },
    /// Remove the file at `path`.
    Delete { path: Vec<u8> },
    /// Move the file at `from` to `to`, replacing any file there.
    Rename { from: Vec<u8>, to: Vec<u8> },
}

impl FsAction {
    pub open spec fn is_write(self, path: Seq<u8>, contents: Seq<u8>) -> bool {
        match self {
            FsAction::Write { path: p, contents: c } => p@ == path && c@ == contents,
            _ => false,
        }
    }

    pub open spec fn is_write_at(self, path: Seq<u8>) -> bool {
        match self {
            FsAction::Write { path: p, contents: c } => p@ == path,
            _ => false,
        }
    }

    pub open spec fn write_contents(self) -> Seq<u8> {
        match self {
            FsAction::Write { path: p, contents: c } => c@,
            _ => Seq::empty(),
        }
    }

    pub open spec fn is_delete(self, path: Seq<u8>) -> bool {
        match self {
            FsAction::Delete { path: p } => p@ == path,
            _ => false,
        }
    }

    pub open spec fn is_rename(self, from: Seq<u8>, to: Seq<u8>) -> bool {
        match self {
            FsAction::Rename { from: f, to: t } => f@ == from && t@ == to,
            _ => false,
        }
    }
}

/// What one action does to a file store modelled as a map from path to
/// contents.
pub open spec fn apply_action(m: Map<Seq<u8>, Seq<u8>>, a: FsAction) -> Map<Seq<u8>, Seq<u8>> {
    match a {
        FsAction::Write { path, contents } => m.insert(path@, contents@),
        FsAction::Delete { path } => m.remove(path@),
        FsAction::Rename { from, to } => if m.contains_key(from@) {
            m.remove(from@).insert(to@, m[from@])
        } else {
            m
        },
    }
}

/// What a whole plan, executed in order, does to a file store.
pub open spec fn apply_plan_spec(m: Map<Seq<u8>, Seq<u8>>, plan: Seq<FsAction>) -> Map<
    Seq<u8>,
    Seq<u8>,
>
    decreases plan.len(),
{
    if plan.len() == 0 {
        m
    } else {
        apply_action(apply_plan_spec(m, plan.drop_last()), plan.last())
    }
}

/// The view of optional file contents.
pub open spec fn contents_view(o: Option<Vec<u8>>) -> Option<Seq<u8>> {
    match o {
        Some(v) => Some(v@),
        None => None,
    }
}

/// The plan of a key-generation request: one write of fresh key
/// material, of the requested size, at the `.cef` path derived from the
/// file name hint.
pub open spec fn key_create_plan_ok(hint: Seq<u8>, size: nat, plan: Seq<FsAction>) -> bool {
    &&& plan.len() == 1
    &&& plan[0].is_write_at(key_path_of(hint))
    &&& plan[0].write_contents().len() == size
}

pub open spec fn key_create_spec(hint: Seq<u8>, size: nat, r: Result<Vec<FsAction>, OpError>) -> bool {
    match r {
        Ok(plan) => file_name_of(hint).len() > 0 && key_create_plan_ok(hint, size, plan@),
        Err(e) => file_name_of(hint).len() == 0 && e == OpError::EmptyFileName,
    }
}

/// One key-generation request: a size and a file name hint the `.cef`
/// output name is derived from.
pub fn key_create_item(size: usize, hint: &Vec<u8>) -> (r: Result<Vec<FsAction>, OpError>)
    ensures
        key_create_spec(hint@, size as nat, r),
{
    let parts = split_path(hint);
    if parts.name.len() == 0 {
        return Err(OpError::EmptyFileName);
    }
    let key = generate(size);
    let key_path = key_output_path(hint);
    let mut plan: Vec<FsAction> = Vec::new();
    plan.push(FsAction::Write { path: key_path, contents: key });
    Ok(plan)
}

/// The plan of a fresh encrypt: the key is written to the `.cef` path,
/// the data combined with that same key to the `.csd` path. The key
/// covers the data exactly.
pub open spec fn fresh_plan_ok(path: Seq<u8>, data: Seq<u8>, plan: Seq<FsAction>) -> bool {
    &&& plan.len() == 2
    &&& plan[0].is_write_at(key_path_of(path))
    &&& plan[0].write_contents().len() == data.len()
    &&& plan[1].is_write(cipher_path_of(path), xor_seq(data, plan[0].write_contents()))
}

pub open spec fn fresh_item_spec(
    path: Seq<u8>,
    data: Option<Seq<u8>>,
    r: Result<Vec<FsAction>, OpError>,
) -> bool {
    match r {
        Ok(plan) => {
            &&& data is Some
            &&& file_name_of(path).len() > 0
            &&& ext_of(file_name_of(path)) is Some
            &&& fresh_plan_ok(path, data->Some_0, plan@)
        },
        Err(e) => {
            if data is None {
                e == OpError::MissingInput
            } else if file_name_of(path).len() == 0 {
                e == OpError::EmptyFileName
            } else {
                ext_of(file_name_of(path)) is None && e == OpError::MissingExtension
            }
        },
    }
}

/// One fresh-encrypt request: the plaintext read from `path` (or `None`
/// when the file is missing) becomes a fresh key and a ciphertext.
pub fn encrypt_fresh_item(path: &Vec<u8>, data: &Option<Vec<u8>>) -> (r: Result<
    Vec<FsAction>,
    OpError,
>)
    ensures
        fresh_item_spec(path@, contents_view(*data), r),
{
    let plaintext = match data {
        Some(d) => d,
        None => {
            return Err(OpError::MissingInput);
        },
    };
    let parts = split_path(path);
    if parts.name.len() == 0 {
        return Err(OpError::EmptyFileName);
    }
    if parts.ext.is_none() {
        return Err(OpError::MissingExtension);
    }
    let key = generate(plaintext.len());
    let ciphertext = xor_apply(plaintext, &key);
    let key_path = key_output_path(path);
    let cipher_path = cipher_output_path(path);
    let mut plan: Vec<FsAction> = Vec::new();
    plan.push(FsAction::Write { path: key_path, contents: key });
    plan.push(FsAction::Write { path: cipher_path, contents: ciphertext });
    Ok(plan)
}

/// The plan of a static encrypt: one write of the ciphertext to the
/// `.csd` path; the supplied key file is left untouched.
pub open spec fn static_plan_ok(path: Seq<u8>, data: Seq<u8>, key: Seq<u8>, plan: Seq<FsAction>) -> bool {
    &&& plan.len() == 1
    &&& plan[0].is_write(cipher_path_of(path), xor_seq(data, key))
}

pub open spec fn static_item_spec(
    path: Seq<u8>,
    data: Option<Seq<u8>>,
    key: Option<Seq<u8>>,
    r: Result<Vec<FsAction>, OpError>,
) -> bool {
    match r {
        Ok(plan) => {
            &&& data is Some
            &&& key is Some
            &&& file_name_of(path).len() > 0
            &&& ext_of(file_name_of(path)) is Some
            &&& (data->Some_0).len() <= (key->Some_0).len()
            &&& static_plan_ok(path, data->Some_0, key->Some_0, plan@)
        },
        Err(e) => {
            if data is None {
                e == OpError::MissingInput
            } else if key is None {
                e == OpError::MissingKey
            } else if file_name_of(path).len() == 0 {
                e == OpError::EmptyFileName
            } else if ext_of(file_name_of(path)) is None {
                e == OpError::MissingExtension
            } else {
                (data->Some_0).len() > (key->Some_0).len() && e == OpError::KeyTooShort
            }
        },
    }
}

/// One static-encrypt request: the caller supplies both the plaintext
/// and the key material; the key must cover the data.
pub fn encrypt_static_item(
    path: &Vec<u8>,
    data: &Option<Vec<u8>>,
    key: &Option<Vec<u8>>,
) -> (r: Result<Vec<FsAction>, OpError>)
    ensures
        static_item_spec(path@, contents_view(*data), contents_view(*key), r),
{
    let plaintext = match data {
        Some(d) => d,
        None => {
            return Err(OpError::MissingInput);
        },
    };
    let key_data = match key {
        Some(k) => k,
        None => {
            return Err(OpError::MissingKey);
        },
    };
    let parts = split_path(path);
    if parts.name.len() == 0 {
        return Err(OpError::EmptyFileName);
    }
    if parts.ext.is_none() {
        return Err(OpError::MissingExtension);
    }
    if plaintext.len() > key_data.len() {
        return Err(OpError::KeyTooShort);
    }
    let ciphertext = xor_apply(plaintext, key_data);
    let cipher_path = cipher_output_path(path);
    let mut plan: Vec<FsAction> = Vec::new();
    plan.push(FsAction::Write { path: cipher_path, contents: ciphertext });
    Ok(plan)
}

/// The plan of a decrypt, in commit order: the recovered plaintext is
/// staged at a temporary sibling first; only then are the ciphertext
/// and the key purged; the staged file is finally moved to the output
/// name, so a late failure never loses the plaintext.
pub open spec fn decrypt_plan_ok(
    data_path: Seq<u8>,
    key_path: Seq<u8>,
    data: Seq<u8>,
    key: Seq<u8>,
    plan: Seq<FsAction>,
) -> bool {
    &&& plan.len() == 4
    &&& plan[0].is_write(tmp_path_of(data_path), xor_seq(data, key))
    &&& plan[1].is_delete(data_path)
    &&& plan[2].is_delete(key_path)
    &&& plan[3].is_rename(tmp_path_of(data_path), plain_path_of(data_path))
}

pub open spec fn decrypt_item_spec(
    data_path: Seq<u8>,
    key_path: Seq<u8>,
    data: Option<Seq<u8>>,
    key: Option<Seq<u8>>,
    r: Result<Vec<FsAction>, OpError>,
) -> bool {
    match r {
        Ok(plan) => {
            &&& data is Some
            &&& key is Some
            &&& file_name_of(data_path).len() > 0
            &&& (data->Some_0).len() <= (key->Some_0).len()
            &&& decrypt_plan_ok(data_path, key_path, data->Some_0, key->Some_0, plan@)
        },
        Err(e) => {
            if data is None {
                e == OpError::MissingInput
            } else if key is None {
                e == OpError::MissingKey
            } else if file_name_of(data_path).len() == 0 {
                e == OpError::EmptyFileName
            } else {
                (data->Some_0).len() > (key->Some_0).len() && e == OpError::KeyTooShort
            }
        },
    }
}

/// One decrypt request: the ciphertext and the key, with their paths;
/// on success the plan recovers the plaintext and purges both inputs.
pub fn decrypt_item(
    data_path: &Vec<u8>,
    key_path: &Vec<u8>,
    data: &Option<Vec<u8>>,
    key: &Option<Vec<u8>>,
) -> (r: Result<Vec<FsAction>, OpError>)
    ensures
        decrypt_item_spec(data_path@, key_path@, contents_view(*data), contents_view(*key), r),
{
    let ciphertext = match data {
        Some(d) => d,
        None => {
            return Err(OpError::MissingInput);
        },
    };
    let key_data = match key {
        Some(k) => k,
        None => {
            return Err(OpError::MissingKey);
        },
    };
    let parts = split_path(data_path);
    if parts.name.len() == 0 {
        return Err(OpError::EmptyFileName);
    }
    if ciphertext.len() > key_data.len() {
        return Err(OpError::KeyTooShort);
    }
    let plaintext = xor_apply(ciphertext, key_data);
    let tmp_path = tmp_output_path(data_path);
    let out_path = plain_output_path(data_path);
    let mut plan: Vec<FsAction> = Vec::new();
    plan.push(FsAction::Write { path: tmp_path, contents: plaintext });
    plan.push(FsAction::Delete { path: crate::naming::copy_bytes(data_path) });
    plan.push(FsAction::Delete { path: crate::naming::copy_bytes(key_path) });
    let tmp_path_again = tmp_output_path(data_path);
    plan.push(FsAction::Rename { from: tmp_path_again, to: out_path });
    Ok(plan)
}

/// The destructive-decrypt law: running a decrypt plan built from the
/// ciphertext of `p` under `k` leaves the store holding the recovered
/// plaintext `p` at the output path, while the ciphertext, the key and
/// the staging file are all gone.
pub proof fn lemma_destructive_decrypt(
    m: Map<Seq<u8>, Seq<u8>>,
    data_path: Seq<u8>,
    key_path: Seq<u8>,
    p: Seq<u8>,
    k: Seq<u8>,
    plan: Seq<FsAction>,
)
    requires
        p.len() <= k.len(),
        decrypt_plan_ok(data_path, key_path, xor_seq(p, k), k, plan),
        tmp_path_of(data_path) != data_path,
        tmp_path_of(data_path) != key_path,
        plain_path_of(data_path) != data_path,
        plain_path_of(data_path) != key_path,
    ensures
        apply_plan_spec(m, plan).contains_key(plain_path_of(data_path)),
        apply_plan_spec(m, plan)[plain_path_of(data_path)] == p,
        !apply_plan_spec(m, plan).contains_key(data_path),
        !apply_plan_spec(m, plan).contains_key(key_path),
        !apply_plan_spec(m, plan).contains_key(tmp_path_of(data_path)),
{
    let tmp = tmp_path_of(data_path);
    let out = plain_path_of(data_path);
    crate::xor::lemma_xor_round_trip(p, k);
    assert(tmp.len() == out.len() + 5);
    let p3 = plan.drop_last();
    let p2 = p3.drop_last();
    let p1 = p2.drop_last();
    let p0 = p1.drop_last();
    assert(p0.len() == 0);
    assert(p1.last() == plan[0]);
    assert(p2.last() == plan[1]);
    assert(p3.last() == plan[2]);
    assert(plan.last() == plan[3]);
    let m1 = apply_action(m, plan[0]);
    let m2 = apply_action(m1, plan[1]);
    let m3 = apply_action(m2, plan[2]);
    assert(m1 == m.insert(tmp, p));
    assert(m2 == m1.remove(data_path));
    assert(m3 == m2.remove(key_path));
    assert(m3.contains_key(tmp) && m3[tmp] == p);
    assert(apply_plan_spec(m, p0) == m);
    assert(apply_plan_spec(m, p1) == m1);
    assert(apply_plan_spec(m, p2) == m2);
    assert(apply_plan_spec(m, p3) == m3);
    assert(apply_plan_spec(m, plan) == apply_action(m3, plan[3]));
    assert(apply_plan_spec(m, plan) == m3.remove(tmp).insert(out, p));
}

/// A batch of key-generation requests, each a size and a file name
/// hint. Every request is processed; a failing one yields its error and
/// the rest go on.
pub fn key_create_batch(requests: &Vec<(usize, Vec<u8>)>) -> (r: Vec<
    Result<Vec<FsAction>, OpError>,
>)
    ensures
        r@.len() == requests@.len(),
        forall|i: int|
            0 <= i < requests@.len() ==> key_create_spec(
                requests@[i].1@,
                requests@[i].0 as nat,
                #[trigger] r@[i],
            ),
{
    let mut out: Vec<Result<Vec<FsAction>, OpError>> = Vec::new();
    let mut i: usize = 0;
    while i < requests.len()
        invariant
            i <= requests@.len(),
            out@.len() == i,
            forall|j: int|
                0 <= j < i ==> key_create_spec(
                    requests@[j].1@,
                    requests@[j].0 as nat,
                    #[trigger] out@[j],
                ),
        decreases requests@.len() - i,
    {
        let req = &requests[i];
        out.push(key_create_item(req.0, &req.1));
        i = i + 1;
    }
    out
}

/// A batch of fresh-encrypt requests, each a path with the contents
/// read from it (`None` where the file is missing). Every request is
/// processed; a failing one yields its error and the rest go on.
pub fn encrypt_fresh_batch(requests: &Vec<(Vec<u8>, Option<Vec<u8>>)>) -> (r: Vec<
    Result<Vec<FsAction>, OpError>,
>)
    ensures
        r@.len() == requests@.len(),
        forall|i: int|
            0 <= i < requests@.len() ==> fresh_item_spec(
                requests@[i].0@,
                contents_view(requests@[i].1),
                #[trigger] r@[i],
            ),
{
    let mut out: Vec<Result<Vec<FsAction>, OpError>> = Vec::new();
    let mut i: usize = 0;
    while i < requests.len()
        invariant
            i <= requests@.len(),
            out@.len() == i,
            forall|j: int|
                0 <= j < i ==> fresh_item_spec(
                    requests@[j].0@,
                    contents_view(requests@[j].1),
                    #[trigger] out@[j],
                ),
        decreases requests@.len() - i,
    {
        let req = &requests[i];
        out.push(encrypt_fresh_item(&req.0, &req.1));
        i = i + 1;
    }
    out
}

/// A batch of static-encrypt requests, each a data path with the data
/// and key contents read for it. Every request is processed; a failing
/// one yields its error and the rest go on.
pub fn encrypt_static_batch(requests: &Vec<(Vec<u8>, Option<Vec<u8>>, Option<Vec<u8>>)>) -> (r:
    Vec<Result<Vec<FsAction>, OpError>>)
    ensures
        r@.len() == requests@.len(),
        forall|i: int|
            0 <= i < requests@.len() ==> static_item_spec(
                requests@[i].0@,
                contents_view(requests@[i].1),
                contents_view(requests@[i].2),
                #[trigger] r@[i],
            ),
{
    let mut out: Vec<Result<Vec<FsAction>, OpError>> = Vec::new();
    let mut i: usize = 0;
    while i < requests.len()
        invariant
            i <= requests@.len(),
            out@.len() == i,
            forall|j: int|
                0 <= j < i ==> static_item_spec(
                    requests@[j].0@,
                    contents_view(requests@[j].1),
                    contents_view(requests@[j].2),
                    #[trigger] out@[j],
                ),
        decreases requests@.len() - i,
    {
        let req = &requests[i];
        out.push(encrypt_static_item(&req.0, &req.1, &req.2));
        i = i + 1;
    }
    out
}

/// A batch of decrypt requests, each the ciphertext path and key path
/// with the contents read from them. Every request is processed; a
/// failing one yields its error and the rest go on.
pub fn decrypt_batch(requests: &Vec<(Vec<u8>, Vec<u8>, Option<Vec<u8>>, Option<Vec<u8>>)>) -> (r:
    Vec<Result<Vec<FsAction>, OpError>>)
    ensures
        r@.len() == requests@.len(),
        forall|i: int|
            0 <= i < requests@.len() ==> decrypt_item_spec(
                requests@[i].0@,
                requests@[i].1@,
                contents_view(requests@[i].2),
                contents_view(requests@[i].3),
                #[trigger] r@[i],
            ),
{
    let mut out: Vec<Result<Vec<FsAction>, OpError>> = Vec::new();
    let mut i: usize = 0;
    while i < requests.len()
        invariant
            i <= requests@.len(),
            out@.len() == i,
            forall|j: int|
                0 <= j < i ==> decrypt_item_spec(
                    requests@[j].0@,
                    requests@[j].1@,
                    contents_view(requests@[j].2),
                    contents_view(requests@[j].3),
                    #[trigger] out@[j],
                ),
        decreases requests@.len() - i,
    {
        let req = &requests[i];
        out.push(decrypt_item(&req.0, &req.1, &req.2, &req.3));
        i = i + 1;
    }
    out
}

} // verus!
