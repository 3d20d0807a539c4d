//! What registering the driver writes into the registry, and what
//! unregistering takes out of it.

use vstd::prelude::*;
use vstd::string::*;
use crate::constants::{
    ASIO_REGISTRY_SUBKEY, DRIVER_CLSID_STR, DRIVER_NAME, ERROR_FILE_NOT_FOUND,
};
use crate::text::join;
use crate::utf16::{decode, decoded, encode_nul, encoded, to_bytes, unit_bytes};

verus! {

/// A predefined key of the registry.
#[derive(Clone, Copy, Debug, PartialEq, Eq, Structural)]
pub enum RegRoot {
    /// `HKEY_LOCAL_MACHINE`
    LocalMachine,
    /// `HKEY_CLASSES_ROOT`
    ClassesRoot,
}

/// An operation on the registry.
#[derive(Debug)]
pub enum RegOp {
    /// Create or open a key; what follows is about this key.
    Create(RegRoot, String),
    /// Set a text value of the key: its name, empty for the default value, and
    /// the text.
    SetString(String, String),
    /// Close the key.
    Close,
    /// Delete a key with everything below it.
    DeleteTree(RegRoot, String),
}

/// What a [`RegOp`] holds.
pub enum OpModel {
    Create(RegRoot, Seq<char>),
    SetString(Seq<char>, Seq<char>),
    Close,
    DeleteTree(RegRoot, Seq<char>),
}

impl View for RegOp {
    type V = OpModel;

    open spec fn view(&self) -> OpModel {
        match self {
            RegOp::Create(root, path) => OpModel::Create(*root, path@),
            RegOp::SetString(name, text) => OpModel::SetString(name@, text@),
            RegOp::Close => OpModel::Close,
            RegOp::DeleteTree(root, path) => OpModel::DeleteTree(*root, path@),
        }
    }
}

/// What a list of operations holds.
pub open spec fn op_models(s: Seq<RegOp>) -> Seq<OpModel> {
    s.map_values(|op: RegOp| op@)
}

/// The key of the driver's class.
pub open spec fn class_key() -> Seq<char> {
    "CLSID\\"@ + DRIVER_CLSID_STR@
}

/// The key of the server of the driver's class.
pub open spec fn server_key() -> Seq<char> {
    class_key() + "\\InprocServer32"@
}

/// What registers the driver: the key by which hosts find ASIO drivers, then the
/// class, then its server, the DLL.
pub open spec fn registration(dll_path: Seq<char>) -> Seq<OpModel> {
    seq![
        OpModel::Create(RegRoot::LocalMachine, ASIO_REGISTRY_SUBKEY@),
        OpModel::SetString("CLSID"@, DRIVER_CLSID_STR@),
        OpModel::SetString("Description"@, DRIVER_NAME@),
        OpModel::Close,
        OpModel::Create(RegRoot::ClassesRoot, class_key()),
        OpModel::SetString(""@, DRIVER_NAME@),
        OpModel::Close,
        OpModel::Create(RegRoot::ClassesRoot, server_key()),
        OpModel::SetString(""@, dll_path),
        OpModel::SetString("ThreadingModel"@, "Apartment"@),
        OpModel::Close,
    ]
}

/// What unregisters the driver.
pub open spec fn unregistration() -> Seq<OpModel> {
    seq![
        OpModel::DeleteTree(RegRoot::LocalMachine, ASIO_REGISTRY_SUBKEY@),
        OpModel::DeleteTree(RegRoot::ClassesRoot, class_key()),
    ]
}

fn class_path() -> (r: String)
    ensures
        r@ == class_key(),
{
    join("CLSID\\", DRIVER_CLSID_STR)
}

fn set_value(name: &str, text: &str) -> (r: RegOp)
    ensures
        r@ == OpModel::SetString(name@, text@),
{
    RegOp::SetString(String::from_str(name), String::from_str(text))
}

/// The operations that register the driver in the DLL at `dll_path`.
pub fn register_driver(dll_path: &str) -> (r: Vec<RegOp>)
    ensures
        op_models(r@) == registration(dll_path@),
{
    let mut r: Vec<RegOp> = Vec::new();
    r.push(RegOp::Create(RegRoot::LocalMachine, String::from_str(ASIO_REGISTRY_SUBKEY)));
    r.push(set_value("CLSID", DRIVER_CLSID_STR));
    r.push(set_value("Description", DRIVER_NAME));
    r.push(RegOp::Close);
    r.push(RegOp::Create(RegRoot::ClassesRoot, class_path()));
    r.push(set_value("", DRIVER_NAME));
    r.push(RegOp::Close);
    let class = class_path();
    r.push(RegOp::Create(RegRoot::ClassesRoot, join(class.as_str(), "\\InprocServer32")));
    r.push(set_value("", dll_path));
    r.push(set_value("ThreadingModel", "Apartment"));
    r.push(RegOp::Close);
    assert(op_models(r@) =~= registration(dll_path@));
    r
}

/// The operations that take everything out again that [`register_driver`] wrote.
pub fn unregister_driver() -> (r: Vec<RegOp>)
    ensures
        op_models(r@) == unregistration(),
{
    let mut r: Vec<RegOp> = Vec::new();
    r.push(RegOp::DeleteTree(RegRoot::LocalMachine, String::from_str(ASIO_REGISTRY_SUBKEY)));
    r.push(RegOp::DeleteTree(RegRoot::ClassesRoot, class_path()));
    assert(op_models(r@) =~= unregistration());
    r
}

/// The bytes of a text value: its UTF-16 units with a zero behind them, low byte
/// first.
pub fn reg_set_string(text: &str) -> (r: Vec<u8>)
    ensures
        r@ == unit_bytes(encoded(text@).push(0)),
{
    let wide = encode_nul(text);
    to_bytes(&wide)
}

/// The path of the DLL, from the first `len` units that the system wrote into
/// `buf`.
pub fn get_dll_path(buf: &Vec<u16>, len: usize) -> (r: String)
    requires
        len <= buf.len(),
    ensures
        r@ == decoded(buf@.take(len as int)),
{
    decode(buf, len)
}

// ---------------------------------------------------------------------------
// Carrying out the operations
// ---------------------------------------------------------------------------

/// The HRESULT for an error code of the system: zero stays, a code with the
/// highest bit set is one already, and of any other the lower 16 bits stand in
/// the code, below the mark of system errors.
pub open spec fn hresult_of(code: u32) -> int {
    if code == 0 {
        0
    } else if code >= 0x8000_0000 {
        code - 0x1_0000_0000
    } else {
        0x8007_0000 + code % 0x1_0000 - 0x1_0000_0000
    }
}

/// The outcome of a call of the system that ended with this error code.
pub fn win32_ok(code: u32) -> (r: Result<(), i32>)
    ensures
        match r {
            Ok(_) => code == 0,
            Err(e) => code != 0 && e == hresult_of(code),
        },
{
    if code == 0 {
        Ok(())
    } else if code >= 0x8000_0000 {
        Err((code - 0x8000_0000) as i32 - 0x7FFF_FFFF - 1)
    } else {
        Err((code % 0x1_0000) as i32 - 0x7FF9_0000)
    }
}

/// What follows an operation.
#[derive(Clone, Copy, Debug, PartialEq, Eq)]
pub enum RegNext {
    /// Carry out the operation with this number; the outcome so far goes with it.
    Perform(usize, Result<(), i32>),
    /// Nothing more is to be done.
    Done(Result<(), i32>),
}

/// The failure of the operation ends the work.
pub open spec fn ends_work(op: OpModel) -> bool {
    op is Create || op is SetString
}

/// The operation did what it is for: a deletion also where there is no such key,
/// and closing a key however it ends.
pub open spec fn succeeded(op: OpModel, code: u32) -> bool {
    match op {
        OpModel::Create(_, _) | OpModel::SetString(_, _) => code == 0,
        OpModel::Close => true,
        OpModel::DeleteTree(_, _) => code == 0 || code == ERROR_FILE_NOT_FOUND,
    }
}

/// The outcome so far, after one more operation: the first failure stays.
pub open spec fn outcome_after(op: OpModel, code: u32, so_far: Result<(), i32>) -> Result<(), i32> {
    if so_far is Ok && !succeeded(op, code) {
        Err(hresult_of(code) as i32)
    } else {
        so_far
    }
}

/// What follows the operation with number `step`.
pub open spec fn next_op(
    ops: Seq<OpModel>,
    step: int,
    code: u32,
    so_far: Result<(), i32>,
) -> RegNext {
    let outcome = outcome_after(ops[step], code, so_far);
    if ends_work(ops[step]) && code != 0 || step + 1 >= ops.len() {
        RegNext::Done(outcome)
    } else {
        RegNext::Perform((step + 1) as usize, outcome)
    }
}

/// What follows the operation with number `step`, which ended with this error
/// code of the system: the next one, unless a key could not be created or a
/// value not be set. A deletion that failed is reported once the others have
/// been tried.
pub fn after_op(ops: &Vec<RegOp>, step: usize, code: u32, so_far: Result<(), i32>) -> (r: RegNext)
    requires
        step < ops.len(),
    ensures
        r == next_op(op_models(ops@), step as int, code, so_far),
{
    assert(op_models(ops@)[step as int] == ops@[step as int]@);
    let (ends, good) = match &ops[step] {
        RegOp::Create(_, _) => (true, code == 0),
        RegOp::SetString(_, _) => (true, code == 0),
        RegOp::Close => (false, true),
        RegOp::DeleteTree(_, _) => (false, code == 0 || code == ERROR_FILE_NOT_FOUND),
    };
    let mut outcome = so_far;
    if so_far.is_ok() && !good {
        outcome = win32_ok(code);
    }
    if ends && code != 0 || step + 1 >= ops.len() {
        RegNext::Done(outcome)
    } else {
        RegNext::Perform(step + 1, outcome)
    }
}

/// `path` is the key `tree` or a key below it.
pub open spec fn lies_in(path: Seq<char>, tree: Seq<char>) -> bool {
    ||| path == tree
    ||| path.len() > tree.len() && path.take(tree.len() as int) == tree && path[tree.len() as int]
        == '\\'
}

/// Unregistering deletes the key.
pub open spec fn is_deleted(root: RegRoot, path: Seq<char>) -> bool {
    exists|j: int|
        0 <= j < unregistration().len() && (#[trigger] unregistration()[j] matches
            OpModel::DeleteTree(r, tree) && r == root && lies_in(path, tree))
}

/// Unregistering deletes every key that registering creates, whatever the path
/// of the DLL, and it touches nothing but the driver's own two trees.
pub proof fn law_unregister_undoes_register(dll_path: Seq<char>)
    ensures
        forall|i: int|
            0 <= i < registration(dll_path).len() ==> (#[trigger] registration(dll_path)[i] matches
                OpModel::Create(root, path) ==> is_deleted(root, path)),
        forall|j: int|
            0 <= j < unregistration().len() ==> #[trigger] unregistration()[j]
                == OpModel::DeleteTree(RegRoot::LocalMachine, ASIO_REGISTRY_SUBKEY@)
                || unregistration()[j] == OpModel::DeleteTree(RegRoot::ClassesRoot, class_key()),
{
    let asio = ASIO_REGISTRY_SUBKEY@;
    reveal_strlit("\\InprocServer32");
    assert(server_key().take(class_key().len() as int) =~= class_key());
    assert(lies_in(server_key(), class_key()));
    assert(unregistration()[0] == OpModel::DeleteTree(RegRoot::LocalMachine, asio));
    assert(unregistration()[1] == OpModel::DeleteTree(RegRoot::ClassesRoot, class_key()));
}

/// The outcome of carrying out operations from number `step` on, when they end
/// with these codes.
pub open spec fn carried_out(
    ops: Seq<OpModel>,
    codes: Seq<u32>,
    step: int,
    so_far: Result<(), i32>,
) -> Result<(), i32>
    decreases ops.len() - step,
{
    if 0 <= step < ops.len() {
        match next_op(ops, step, codes[step], so_far) {
            RegNext::Done(outcome) => outcome,
            RegNext::Perform(_, outcome) => carried_out(ops, codes, step + 1, outcome),
        }
    } else {
        so_far
    }
}

/// Unregistering tries both deletions whatever becomes of the first. It succeeds
/// exactly where both trees are gone, deleted now or not there before; otherwise
/// its outcome is the first failure.
pub proof fn law_unregister_outcome(codes: Seq<u32>)
    requires
        codes.len() == 2,
    ensures
        next_op(unregistration(), 0, codes[0], Ok(())) is Perform,
        carried_out(unregistration(), codes, 0, Ok(())) == (if codes[0] != 0 && codes[0]
            != ERROR_FILE_NOT_FOUND {
            Err::<(), i32>(hresult_of(codes[0]) as i32)
        } else if codes[1] != 0 && codes[1] != ERROR_FILE_NOT_FOUND {
            Err::<(), i32>(hresult_of(codes[1]) as i32)
        } else {
            Ok(())
        }),
{
    reveal_with_fuel(carried_out, 3);
}

/// Registering succeeds exactly where every key was created and every value set;
/// the first failure ends it and is its outcome.
pub proof fn law_register_outcome(dll_path: Seq<char>, codes: Seq<u32>, k: int)
    requires
        codes.len() == registration(dll_path).len(),
        0 <= k <= codes.len(),
        forall|i: int|
            0 <= i < k ==> succeeded(#[trigger] registration(dll_path)[i], codes[i]),
        k < codes.len() ==> !succeeded(registration(dll_path)[k], codes[k]),
    ensures
        carried_out(registration(dll_path), codes, 0, Ok(())) == (if k < codes.len() {
            Err::<(), i32>(hresult_of(codes[k]) as i32)
        } else {
            Ok(())
        }),
{
    lemma_register_from(dll_path, codes, k, 0);
}

proof fn lemma_register_from(dll_path: Seq<char>, codes: Seq<u32>, k: int, step: int)
    requires
        codes.len() == registration(dll_path).len(),
        0 <= step <= k <= codes.len(),
        forall|i: int|
            0 <= i < k ==> succeeded(#[trigger] registration(dll_path)[i], codes[i]),
        k < codes.len() ==> !succeeded(registration(dll_path)[k], codes[k]),
    ensures
        carried_out(registration(dll_path), codes, step, Ok(())) == (if k < codes.len() {
            Err::<(), i32>(hresult_of(codes[k]) as i32)
        } else {
            Ok(())
        }),
    decreases codes.len() - step,
{
    if step < k {
        assert(succeeded(registration(dll_path)[step], codes[step]));
        lemma_register_from(dll_path, codes, k, step + 1);
    }
}

// ---------------------------------------------------------------------------
// What the registry holds afterwards
// ---------------------------------------------------------------------------

/// The text values of a key, by their names.
pub type KeyValues = Map<Seq<char>, Seq<char>>;

/// A registry, as far as text values go, with the key that was opened last.
pub struct RegistryModel {
    pub keys: Map<(RegRoot, Seq<char>), KeyValues>,
    pub open: Option<(RegRoot, Seq<char>)>,
}

/// The registry after an operation that succeeded.
pub open spec fn performed(reg: RegistryModel, op: OpModel) -> RegistryModel {
    match op {
        OpModel::Create(root, path) => RegistryModel {
            keys: if reg.keys.contains_key((root, path)) {
                reg.keys
            } else {
                reg.keys.insert((root, path), Map::empty())
            },
            open: Some((root, path)),
        },
        OpModel::SetString(name, text) => match reg.open {
            Some(key) => RegistryModel {
                keys: reg.keys.insert(key, reg.keys[key].insert(name, text)),
                ..reg
            },
            None => reg,
        },
        OpModel::Close => RegistryModel { open: None, ..reg },
        OpModel::DeleteTree(root, tree) => RegistryModel {
            keys: reg.keys.remove_keys(
                Set::new(|key: (RegRoot, Seq<char>)| key.0 == root && lies_in(key.1, tree)),
            ),
            ..reg
        },
    }
}

/// The registry after these operations, all of which succeeded.
pub open spec fn performed_all(reg: RegistryModel, ops: Seq<OpModel>) -> RegistryModel
    decreases ops.len(),
{
    if ops.len() == 0 {
        reg
    } else {
        performed_all(performed(reg, ops[0]), ops.skip(1))
    }
}

proof fn lemma_performed_step(reg: RegistryModel, ops: Seq<OpModel>, i: int)
    requires
        0 <= i < ops.len(),
    ensures
        performed_all(reg, ops.skip(i)) == performed_all(performed(reg, ops[i]), ops.skip(i + 1)),
{
    assert(ops.skip(i)[0] == ops[i]);
    assert(ops.skip(i).skip(1) =~= ops.skip(i + 1));
}

proof fn lemma_keys_apart()
    ensures
        class_key() == "CLSID\\{8F3D4A2B-E1C7-4F89-A0D3-6B2E9C1F5847}"@,
        server_key() == "CLSID\\{8F3D4A2B-E1C7-4F89-A0D3-6B2E9C1F5847}\\InprocServer32"@,
        class_key() != server_key(),
        ""@ != "ThreadingModel"@,
        "CLSID"@ != "Description"@,
{
    reveal_strlit("CLSID\\");
    reveal_strlit("{8F3D4A2B-E1C7-4F89-A0D3-6B2E9C1F5847}");
    reveal_strlit("CLSID\\{8F3D4A2B-E1C7-4F89-A0D3-6B2E9C1F5847}");
    reveal_strlit("\\InprocServer32");
    reveal_strlit("CLSID\\{8F3D4A2B-E1C7-4F89-A0D3-6B2E9C1F5847}\\InprocServer32");
    reveal_strlit("");
    reveal_strlit("ThreadingModel");
    reveal_strlit("CLSID");
    reveal_strlit("Description");
    assert(class_key() =~= "CLSID\\{8F3D4A2B-E1C7-4F89-A0D3-6B2E9C1F5847}"@);
    assert(server_key()
        =~= "CLSID\\{8F3D4A2B-E1C7-4F89-A0D3-6B2E9C1F5847}\\InprocServer32"@);
    assert(class_key().len() != server_key().len());
    assert(""@.len() != "ThreadingModel"@.len());
    assert("CLSID"@.len() != "Description"@.len());
}

/// Once the driver is registered, hosts find it among the ASIO drivers by its name
/// and class, and the class names the DLL as its server, for whatever path and
/// whatever the registry held before; no other key is touched.
pub proof fn law_registered_driver_is_found(
    reg: RegistryModel,
    dll_path: Seq<char>,
    other: (RegRoot, Seq<char>),
)
    ensures
        ({
            let after = performed_all(reg, registration(dll_path)).keys;
            let asio = (RegRoot::LocalMachine, "SOFTWARE\\ASIO\\iRig USB ASIO (Rust)"@);
            let class = (
                RegRoot::ClassesRoot,
                "CLSID\\{8F3D4A2B-E1C7-4F89-A0D3-6B2E9C1F5847}"@,
            );
            let server = (
                RegRoot::ClassesRoot,
                "CLSID\\{8F3D4A2B-E1C7-4F89-A0D3-6B2E9C1F5847}\\InprocServer32"@,
            );
            &&& after.contains_key(asio) && after.contains_key(class) && after.contains_key(server)
            &&& after[asio].contains_key("CLSID"@) && after[asio]["CLSID"@]
                == "{8F3D4A2B-E1C7-4F89-A0D3-6B2E9C1F5847}"@
            &&& after[asio].contains_key("Description"@) && after[asio]["Description"@]
                == "iRig USB ASIO (Rust)"@
            &&& after[class].contains_key(""@) && after[class][""@] == "iRig USB ASIO (Rust)"@
            &&& after[server].contains_key(""@) && after[server][""@] == dll_path
            &&& after[server].contains_key("ThreadingModel"@) && after[server]["ThreadingModel"@]
                == "Apartment"@
            &&& other != asio && other != class && other != server ==> {
                &&& after.contains_key(other) == reg.keys.contains_key(other)
                &&& reg.keys.contains_key(other) ==> after[other] == reg.keys[other]
            }
        }),
{
    lemma_keys_apart();
    let ops = registration(dll_path);
    assert(ops.skip(0) =~= ops);
    let r0 = reg;
    let r1 = performed(r0, ops[0]);
    let r2 = performed(r1, ops[1]);
    let r3 = performed(r2, ops[2]);
    let r4 = performed(r3, ops[3]);
    let r5 = performed(r4, ops[4]);
    let r6 = performed(r5, ops[5]);
    let r7 = performed(r6, ops[6]);
    let r8 = performed(r7, ops[7]);
    let r9 = performed(r8, ops[8]);
    let r10 = performed(r9, ops[9]);
    let r11 = performed(r10, ops[10]);
    lemma_performed_step(r0, ops, 0);
    lemma_performed_step(r1, ops, 1);
    lemma_performed_step(r2, ops, 2);
    lemma_performed_step(r3, ops, 3);
    lemma_performed_step(r4, ops, 4);
    lemma_performed_step(r5, ops, 5);
    lemma_performed_step(r6, ops, 6);
    lemma_performed_step(r7, ops, 7);
    lemma_performed_step(r8, ops, 8);
    lemma_performed_step(r9, ops, 9);
    lemma_performed_step(r10, ops, 10);
    assert(ops.skip(11) =~= Seq::empty());
    assert(performed_all(reg, ops) == r11);
}

/// Once the driver is unregistered, neither its entry nor its class nor anything
/// below them is left; every key outside these two trees stays as it was.
pub proof fn law_unregistered_driver_is_gone(
    reg: RegistryModel,
    root: RegRoot,
    path: Seq<char>,
)
    ensures
        ({
            let after = performed_all(reg, unregistration()).keys;
            let own = root == RegRoot::LocalMachine && lies_in(
                path,
                "SOFTWARE\\ASIO\\iRig USB ASIO (Rust)"@,
            ) || root == RegRoot::ClassesRoot && lies_in(
                path,
                "CLSID\\{8F3D4A2B-E1C7-4F89-A0D3-6B2E9C1F5847}"@,
            );
            &&& own ==> !after.contains_key((root, path))
            &&& !own ==> {
                &&& after.contains_key((root, path)) == reg.keys.contains_key((root, path))
                &&& reg.keys.contains_key((root, path)) ==> after[(root, path)] == reg.keys[(
                    root,
                    path,
                )]
            }
        }),
{
    lemma_keys_apart();
    let ops = unregistration();
    assert(ops.skip(0) =~= ops);
    let r1 = performed(reg, ops[0]);
    lemma_performed_step(reg, ops, 0);
    lemma_performed_step(r1, ops, 1);
    assert(ops.skip(2) =~= Seq::empty());
}

/// When an operation counts as done: a key created or a value set without an
/// error, a tree deleted or not there, and a closing always. Only a key that could
/// not be created and a value that could not be set end the work.
pub proof fn law_when_an_operation_is_done(op: OpModel, code: u32)
    ensures
        op is Create || op is SetString ==> (succeeded(op, code) <==> code == 0),
        op is DeleteTree ==> (succeeded(op, code) <==> code == 0 || code == 2),
        op is Close ==> succeeded(op, code),
        ends_work(op) <==> op is Create || op is SetString,
{
}

/// The HRESULT of an error code of the system keeps the lower sixteen bits and
/// says that it is one; a code that is an HRESULT already stays.
pub proof fn law_hresult(code: u32)
    ensures
        code == 0 ==> hresult_of(code) == 0,
        code >= 0x8000_0000 ==> hresult_of(code) + 0x1_0000_0000 == code,
        0 < code < 0x1_0000 ==> hresult_of(code) + 0x1_0000_0000 == 0x8007_0000 + code,
        0 < code < 0x8000_0000 ==> hresult_of(code) < 0 && (hresult_of(code) - code) % 0x1_0000 == 0
            && 0x8007_0000 <= hresult_of(code) + 0x1_0000_0000 <= 0x8007_FFFF,
{
}

/// Operations are carried out one after the other, none left out and none twice,
/// until the last, or until a key could not be created or a value not be set.
pub proof fn law_operations_one_by_one(
    ops: Seq<OpModel>,
    step: int,
    code: u32,
    so_far: Result<(), i32>,
)
    requires
        0 <= step < ops.len() <= usize::MAX,
    ensures
        next_op(ops, step, code, so_far) is Done <==> step + 1 == ops.len() || code != 0 && (
        ops[step] is Create || ops[step] is SetString),
        next_op(ops, step, code, so_far) matches RegNext::Perform(n, _) ==> n == step + 1,
{
}

/// A list of operations is what its entries say.
pub proof fn law_views_of_operations(
    ops: Seq<RegOp>,
    i: int,
    root: RegRoot,
    a: String,
    b: String,
)
    ensures
        op_models(ops).len() == ops.len(),
        0 <= i < ops.len() ==> op_models(ops)[i] == ops[i]@,
        RegOp::Create(root, a)@ == OpModel::Create(root, a@),
        RegOp::SetString(a, b)@ == OpModel::SetString(a@, b@),
        RegOp::Close@ == OpModel::Close,
        RegOp::DeleteTree(root, a)@ == OpModel::DeleteTree(root, a@),
{
}

} // verus!
