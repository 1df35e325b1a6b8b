//! SSH keys, and how one gets onto the disk of a VM that has not been booted.
use vstd::prelude::*;
use vstd::utf8::{decode_utf8, valid_utf8};

use crate::names::{tool, tool_name};
use crate::paths::{join_path, path_join};
use crate::text::{
    cat, chars_of, find_from, first_index, from_utf8, has_char, lemma_first_index, line_list, lines,
    starts_with, string_of, strip_prefixes, texts, trim, trimmed, without_prefixes,
};

verus! {

// ---------------------------------------------------------------------------
// Keys
// ---------------------------------------------------------------------------

/// A keypair.
#[verifier::external_type_specification]
#[verifier::external_body]
pub struct ExKeyPair(russh_keys::key::KeyPair);

/// The public half of a keypair.
#[verifier::external_type_specification]
#[verifier::external_body]
pub struct ExPublicKey(russh_keys::key::PublicKey);

/// An error of the key library.
#[verifier::external_type_specification]
#[verifier::external_body]
pub struct ExError(russh_keys::Error);

/// What `KeyPair::clone_public_key` gives, if it succeeds.
pub uninterp spec fn public_half(key: russh_keys::key::KeyPair) -> Option<
    russh_keys::key::PublicKey,
>;

/// What `PublicKey::name` gives: the name of the key's algorithm.
pub uninterp spec fn public_algorithm(key: russh_keys::key::PublicKey) -> Seq<char>;

/// What `PublicKeyBase64::public_key_base64` gives.
pub uninterp spec fn public_base64(key: russh_keys::key::PublicKey) -> Seq<char>;

/// What `russh_keys::encode_pkcs8_pem` writes, if it succeeds.
pub uninterp spec fn encoded_key(key: russh_keys::key::KeyPair) -> Option<Seq<u8>>;

/// What `russh_keys::decode_secret_key` reads from a text without a password, if it
/// succeeds.
pub uninterp spec fn decoded_key(text: Seq<char>) -> Option<russh_keys::key::KeyPair>;

/// Whether a key is an Ed25519 key: the name of its public half's algorithm says so.
pub open spec fn is_ed25519(key: russh_keys::key::KeyPair) -> bool {
    public_half(key) matches Some(p) && public_algorithm(p) == "ssh-ed25519"@
}

/// `KeyPair::generate_ed25519` makes a random Ed25519 key; it has a public half, whose
/// algorithm has the name `ssh-ed25519`.
#[verifier::external_body]
fn generate_ed25519() -> (r: russh_keys::key::KeyPair)
    ensures
        is_ed25519(r),
{
    russh_keys::key::KeyPair::generate_ed25519()
}

/// `KeyPair::clone_public_key` gives the public half of a key, which depends on the
/// key alone.
#[verifier::external_body]
fn clone_public_key(key: &russh_keys::key::KeyPair) -> (r: Result<
    russh_keys::key::PublicKey,
    russh_keys::Error,
>)
    ensures
        r is Ok == public_half(*key) is Some,
        r matches Ok(p) ==> p == public_half(*key)->0,
{
    key.clone_public_key()
}

/// `PublicKey::name` gives the name of the key's algorithm.
#[verifier::external_body]
fn public_name(key: &russh_keys::key::PublicKey) -> (r: String)
    ensures
        r@ == public_algorithm(*key),
{
    key.name().to_string()
}

/// `PublicKeyBase64::public_key_base64` gives the key in base64, which depends on the
/// key alone.
#[verifier::external_body]
fn public_key_base64(key: &russh_keys::key::PublicKey) -> (r: String)
    ensures
        r@ == public_base64(*key),
{
    russh_keys::PublicKeyBase64::public_key_base64(key)
}

/// `russh_keys::encode_pkcs8_pem` writes a key as PEM, which depends on the key
/// alone. It succeeds for an Ed25519 key, writes ASCII, and what it writes is read
/// back as the same key.
#[verifier::external_body]
fn encode_pkcs8_pem(key: &russh_keys::key::KeyPair) -> (r: Result<Vec<u8>, russh_keys::Error>)
    ensures
        r is Ok == encoded_key(*key) is Some,
        r matches Ok(pem) ==> pem@ == encoded_key(*key)->0,
        is_ed25519(*key) ==> r is Ok && valid_utf8(r->Ok_0@) && decoded_key(
            decode_utf8(r->Ok_0@),
        ) == Some(*key),
{
    let mut buf = Vec::new();
    russh_keys::encode_pkcs8_pem(key, &mut buf)?;
    Ok(buf)
}

/// `russh_keys::decode_secret_key` reads a key without a password from a text; what
/// it reads depends on the text alone.
#[verifier::external_body]
fn decode_secret_key(text: &str) -> (r: Result<russh_keys::key::KeyPair, russh_keys::Error>)
    ensures
        r is Ok == decoded_key(text@) is Some,
        r matches Ok(key) ==> key == decoded_key(text@)->0,
{
    russh_keys::decode_secret_key(text, None)
}

/// Why a key could not be made, stored or loaded.
#[derive(Debug)]
pub enum KeyError {
    /// A key has no public half.
    Public(russh_keys::Error),
    /// A key could not be encoded.
    Encode(russh_keys::Error),
    /// A key could not be decoded.
    Decode(russh_keys::Error),
    /// A stored key is not even text.
    NotText,
}

/// An ephemeral Ed25519 keypair. Private key stays in memory only.
pub struct EphemeralKey {
    pub keypair: russh_keys::key::KeyPair,
    /// The formatted public key line: the algorithm, a blank, and the key in base64.
    pub authorized_keys_line: String,
}

/// Serialize a keypair to PKCS8 PEM bytes for persistent storage. An Ed25519 key can
/// always be serialized, and [`deserialize_keypair`] gives it back.
pub fn serialize_keypair(key: &russh_keys::key::KeyPair) -> (r: Result<Vec<u8>, KeyError>)
    ensures
        r is Ok == encoded_key(*key) is Some,
        match r {
            Ok(pem) => pem@ == encoded_key(*key)->0,
            Err(e) => e is Encode,
        },
        is_ed25519(*key) ==> r is Ok && stored_key(r->Ok_0@) == Some(*key),
{
    match encode_pkcs8_pem(key) {
        Ok(pem) => Ok(pem),
        Err(e) => Err(KeyError::Encode(e)),
    }
}

/// The key that some stored bytes hold: they have to be text, and the text a key.
pub open spec fn stored_key(pem: Seq<u8>) -> Option<russh_keys::key::KeyPair> {
    if valid_utf8(pem) {
        decoded_key(decode_utf8(pem))
    } else {
        None
    }
}

/// Load a keypair from PKCS8 PEM bytes previously written by `serialize_keypair`.
pub fn deserialize_keypair(pem: Vec<u8>) -> (r: Result<russh_keys::key::KeyPair, KeyError>)
    ensures
        r is Ok == stored_key(pem@) is Some,
        match r {
            Ok(key) => key == stored_key(pem@)->0,
            Err(e) => if valid_utf8(pem@) {
                e is Decode
            } else {
                e is NotText
            },
        },
{
    match from_utf8(pem) {
        None => Err(KeyError::NotText),
        Some(text) => match decode_secret_key(text.as_str()) {
            Ok(key) => Ok(key),
            Err(e) => Err(KeyError::Decode(e)),
        },
    }
}

/// Generate an ephemeral Ed25519 keypair.
pub fn generate() -> (r: Result<EphemeralKey, KeyError>)
    ensures
        r matches Ok(key) && is_ed25519(key.keypair) && key.authorized_keys_line@ == "ssh-ed25519"@ + " "@ + public_base64(
            public_half(key.keypair)->0,
        ),
{
    let keypair = generate_ed25519();
    let public = match clone_public_key(&keypair) {
        Ok(p) => p,
        Err(e) => return Err(KeyError::Public(e)),
    };
    let mut authorized_keys_line = cat(public_name(&public).as_str(), " ");
    authorized_keys_line.append(public_key_base64(&public).as_str());
    Ok(EphemeralKey { keypair, authorized_keys_line })
}

// ---------------------------------------------------------------------------
// The attached disk
// ---------------------------------------------------------------------------

/// The path of the disk image of a VM.
pub open spec fn disk_path(home: Seq<char>, vm_name: Seq<char>) -> Seq<char> {
    path_join(
        path_join(path_join(path_join(home, ".tart"@), "vms"@), vm_name),
        "disk.img"@,
    )
}

/// The path of the disk image of a VM, which has to exist.
pub fn vm_disk_path(home: &str, vm_name: &str) -> (r: String)
    ensures
        r@ == disk_path(home@, vm_name@),
{
    let vms = join_path(join_path(home, ".tart").as_str(), "vms");
    join_path(join_path(vms.as_str(), vm_name).as_str(), "disk.img")
}

/// The first of the tab-separated columns of a line.
pub open spec fn first_column(line: Seq<char>) -> Seq<char> {
    line.take(first_index(line, '\t'))
}

/// What stands behind the second tab of a line, if it has two.
pub open spec fn third_column(line: Seq<char>) -> Option<Seq<char>> {
    let i = first_index(line, '\t');
    if i >= line.len() {
        None
    } else {
        let rest = line.skip(i + 1);
        let j = first_index(rest, '\t');
        if j >= rest.len() {
            None
        } else {
            Some(rest.skip(j + 1))
        }
    }
}

/// Whether a device is a whole disk: partitions have an `s` behind the disk's
/// number.
pub open spec fn is_whole_disk(dev: Seq<char>) -> bool {
    "/dev/disk"@.is_prefix_of(dev) && !without_prefixes(dev, "/dev/disk"@).contains('s')
}

/// The first whole disk of an attachment.
pub open spec fn parent_device(ls: Seq<Seq<char>>) -> Option<Seq<char>>
    decreases ls.len(),
{
    if ls.len() == 0 {
        None
    } else {
        match parent_device(ls.drop_last()) {
            Some(dev) => Some(dev),
            None => if is_whole_disk(trimmed(first_column(ls.last()))) {
                Some(trimmed(first_column(ls.last())))
            } else {
                None
            },
        }
    }
}

/// The mount point that a line of an attachment tells, if any.
pub open spec fn mount_point(line: Seq<char>) -> Option<Seq<char>> {
    match third_column(line) {
        Some(c) => if trimmed(c).len() > 0 {
            Some(trimmed(c))
        } else {
            None
        },
        None => None,
    }
}

/// The mount points of an attachment.
pub open spec fn mount_points(ls: Seq<Seq<char>>) -> Seq<Seq<char>>
    decreases ls.len(),
{
    if ls.len() == 0 {
        seq![]
    } else {
        let front = mount_points(ls.drop_last());
        match mount_point(ls.last()) {
            Some(m) => front.push(m),
            None => front,
        }
    }
}

/// What `hdiutil attach` printed of an attached disk.
pub struct Attachment {
    /// The device to detach.
    pub device: Option<String>,
    /// Where its volumes are mounted.
    pub mounts: Vec<String>,
}

fn read_line(line: &str) -> (r: (String, Option<String>))
    ensures
        r.0@ == trimmed(first_column(line@)),
        r.1 is Some == mount_point(line@) is Some,
        r.1 matches Some(m) ==> m@ == mount_point(line@)->0,
{
    let v = chars_of(line);
    assert(v@.skip(0) =~= v@);
    let i = find_from(&v, '\t', 0);
    let first = string_of(&v, 0, i);
    assert(first@ =~= first_column(line@));
    let dev = trim(first.as_str());
    if i == v.len() {
        return (dev, None);
    }
    let j = find_from(&v, '\t', i + 1);
    proof {
        lemma_first_index(v@.skip(i + 1), '\t');
    }
    if j == v.len() {
        return (dev, None);
    }
    let third = string_of(&v, j + 1, v.len());
    assert(third@ =~= v@.skip(i + 1).skip(j - i));
    let mount = trim(third.as_str());
    if mount.as_str().is_empty() {
        (dev, None)
    } else {
        (dev, Some(mount))
    }
}

/// Read what `hdiutil attach` printed: the first whole disk, and all mount points.
pub fn read_attachment(stdout: &str) -> (r: Attachment)
    ensures
        r.device is Some == parent_device(line_list(stdout@)) is Some,
        r.device matches Some(d) ==> d@ == parent_device(line_list(stdout@))->0,
        texts(r.mounts@) == mount_points(line_list(stdout@)),
{
    let ls = lines(stdout);
    let ghost all = texts(ls@);
    let mut device: Option<String> = None;
    let mut mounts: Vec<String> = Vec::new();
    let mut i: usize = 0;
    assert(texts(mounts@) =~= seq![]);
    while i < ls.len()
        invariant
            i <= ls.len(),
            all == texts(ls@),
            all.len() == ls.len(),
            device is Some == parent_device(all.take(i as int)) is Some,
            device matches Some(d) ==> d@ == parent_device(all.take(i as int))->0,
            texts(mounts@) == mount_points(all.take(i as int)),
        decreases ls.len() - i,
    {
        assert(all.take(i + 1).drop_last() =~= all.take(i as int));
        assert(all.take(i + 1).last() == ls@[i as int]@);
        let (dev, mount) = read_line(ls[i].as_str());
        if device.is_none() && starts_with(dev.as_str(), "/dev/disk") {
            let suffix = strip_prefixes(dev.as_str(), "/dev/disk");
            if !has_char(suffix.as_str(), 's') {
                device = Some(dev);
            }
        }
        let ghost before = texts(mounts@);
        if let Some(m) = mount {
            mounts.push(m);
            assert(texts(mounts@) =~= before.push(m@));
        }
        i += 1;
    }
    assert(all.take(i as int) =~= all);
    Attachment { device, mounts }
}

/// The directory by which the Data volume is known.
pub fn admin_home(mount: &str) -> (r: String)
    ensures
        r@ == path_join(path_join(mount@, "Users"@), "admin"@),
{
    join_path(join_path(mount, "Users").as_str(), "admin")
}

/// Whether the mount point number `i` is that of the Data volume: it is the last one
/// with the user's home directory.
pub open spec fn is_data_mount(has_home: Seq<bool>, n: int, i: int) -> bool {
    &&& 0 <= i < n
    &&& i < has_home.len() && has_home[i]
    &&& forall|j: int| i < j < n && j < has_home.len() ==> !#[trigger] has_home[j]
}

/// Find the Data volume among the mount points, given which of them have the user's
/// home directory.
pub fn data_mount(mounts: &Vec<String>, has_home: &Vec<bool>) -> (r: Option<String>)
    ensures
        match r {
            Some(m) => exists|i: int| #[trigger]
                is_data_mount(has_home@, mounts.len() as int, i) && m@ == mounts@[i]@,
            None => forall|i: int|
                0 <= i < mounts.len() && i < has_home.len() ==> !#[trigger] has_home@[i],
        },
        mounts.len() == has_home.len() ==> r is Some == has_home@.contains(true),
{
    let mut n: usize = if mounts.len() < has_home.len() {
        mounts.len()
    } else {
        has_home.len()
    };
    while n > 0
        invariant
            n <= mounts.len(),
            n <= has_home.len(),
            forall|j: int| n <= j < mounts.len() && j < has_home.len() ==> !#[trigger] has_home@[j],
        decreases n,
    {
        if has_home[n - 1] {
            assert(is_data_mount(has_home@, mounts.len() as int, n - 1));
            return Some(mounts[n - 1].clone());
        }
        n -= 1;
    }
    None
}

// ---------------------------------------------------------------------------
// Commands and places
// ---------------------------------------------------------------------------

/// The arguments of `hdiutil` that attach a disk image without enforcing ownership;
/// hidden from Finder and Spotlight where `hidden` is set.
pub fn attach_args(disk: &str, hidden: bool) -> (r: Vec<String>)
    ensures
        texts(r@) == if hidden {
            seq!["attach"@, "-owners"@, "off"@, "-nobrowse"@, disk@]
        } else {
            seq!["attach"@, "-owners"@, "off"@, disk@]
        },
{
    if hidden {
        let r = vec![
            "attach".to_owned(),
            "-owners".to_owned(),
            "off".to_owned(),
            "-nobrowse".to_owned(),
            disk.to_owned(),
        ];
        assert(texts(r@) =~= seq!["attach"@, "-owners"@, "off"@, "-nobrowse"@, disk@]);
        r
    } else {
        let r = vec!["attach".to_owned(), "-owners".to_owned(), "off".to_owned(), disk.to_owned()];
        assert(texts(r@) =~= seq!["attach"@, "-owners"@, "off"@, disk@]);
        r
    }
}

/// The arguments of `hdiutil` that detach a device.
pub fn detach_args(device: &str, force: bool) -> (r: Vec<String>)
    ensures
        texts(r@) == if force {
            seq!["detach"@, device@, "-force"@]
        } else {
            seq!["detach"@, device@]
        },
{
    if force {
        let r = vec!["detach".to_owned(), device.to_owned(), "-force".to_owned()];
        assert(texts(r@) =~= seq!["detach"@, device@, "-force"@]);
        r
    } else {
        let r = vec!["detach".to_owned(), device.to_owned()];
        assert(texts(r@) =~= seq!["detach"@, device@]);
        r
    }
}

/// The directory of the user's SSH files on the Data volume.
pub open spec fn ssh_path(mount: Seq<char>) -> Seq<char> {
    path_join(path_join(path_join(mount, "Users"@), "admin"@), ".ssh"@)
}

/// The directory of the user's SSH files on the Data volume.
pub fn ssh_dir(mount: &str) -> (r: String)
    ensures
        r@ == ssh_path(mount@),
{
    join_path(admin_home(mount).as_str(), ".ssh")
}

/// The file that the public key is appended to.
pub fn authorized_keys(mount: &str) -> (r: String)
    ensures
        r@ == path_join(ssh_path(mount@), "authorized_keys"@),
{
    join_path(ssh_dir(mount).as_str(), "authorized_keys")
}

/// The line that is appended for a public key.
pub fn key_line(pubkey_line: &str) -> (r: String)
    ensures
        r@ == pubkey_line@ + "\n"@,
{
    cat(pubkey_line, "\n")
}

/// The directory of the agent's binary on the Data volume.
pub open spec fn agent_volume_path(mount: Seq<char>, agent: Seq<char>) -> Seq<char> {
    path_join(path_join(path_join(mount, "opt"@), tool_name(agent)), agent)
}

/// The directory of the agent's binary on the Data volume.
pub fn agent_dir_on_disk(mount: &str, agent: &str) -> (r: String)
    ensures
        r@ == agent_volume_path(mount@, agent@),
{
    let root = join_path(join_path(mount, "opt").as_str(), tool(agent).as_str());
    join_path(root.as_str(), agent)
}

/// The agent's binary on the Data volume.
pub fn agent_on_disk(mount: &str, agent: &str) -> (r: String)
    ensures
        r@ == path_join(agent_volume_path(mount@, agent@), agent@),
{
    join_path(agent_dir_on_disk(mount, agent).as_str(), agent)
}

// ---------------------------------------------------------------------------
// The injection
// ---------------------------------------------------------------------------

/// Something that is done while files are put onto a disk.
#[derive(Clone, Copy, Debug, PartialEq, Eq, Structural)]
pub enum InjectStep {
    /// Look for the disk image.
    FindDisk,
    /// Attach it.
    Attach,
    /// Look for the device to detach in what was printed.
    FindDevice,
    /// Look for the Data volume among the mount points.
    FindVolume,
    /// Create the directory of the SSH files.
    CreateSshDir,
    /// Append the public key.
    WriteKey,
    /// Restrict the key file to the user.
    ChmodKey,
    /// Restrict the directory of the SSH files to the user.
    ChmodDir,
    /// Create the directory of the agent's binary.
    CreateAgentDir,
    /// Copy the agent's binary.
    CopyAgent,
    /// Make the agent's binary executable.
    ChmodAgent,
    /// Detach the device.
    Detach,
    /// Detach the device by force, after a failure.
    ForceDetach,
    /// It is over.
    Done,
}

/// Files being put onto a disk.
#[derive(Clone, Copy, Debug, PartialEq, Eq, Structural)]
pub struct Injection {
    /// Whether the agent's binary goes with the key.
    pub with_agent: bool,
    /// Whether a device is known to be attached that was not asked to be detached.
    pub attached: bool,
    /// What is to be done now.
    pub step: InjectStep,
    /// The step whose error is the error of the injection.
    pub failed: Option<InjectStep>,
}

/// What follows a step. From the moment that the device is known, it is detached,
/// whatever fails.
pub open spec fn inject_after(i: Injection, ok: bool) -> Injection {
    let failing = if i.attached {
        Injection { step: InjectStep::ForceDetach, failed: Some(i.step), ..i }
    } else {
        Injection { step: InjectStep::Done, failed: Some(i.step), ..i }
    };
    match i.step {
        InjectStep::FindDisk => if ok {
            Injection { step: InjectStep::Attach, ..i }
        } else {
            failing
        },
        InjectStep::Attach => if ok {
            Injection { step: InjectStep::FindDevice, ..i }
        } else {
            failing
        },
        InjectStep::FindDevice => if ok {
            Injection { step: InjectStep::FindVolume, attached: true, ..i }
        } else {
            failing
        },
        InjectStep::FindVolume => if ok {
            Injection { step: InjectStep::CreateSshDir, ..i }
        } else {
            failing
        },
        InjectStep::CreateSshDir => if ok {
            Injection { step: InjectStep::WriteKey, ..i }
        } else {
            failing
        },
        InjectStep::WriteKey => if ok {
            Injection { step: InjectStep::ChmodKey, ..i }
        } else {
            failing
        },
        InjectStep::ChmodKey => Injection { step: InjectStep::ChmodDir, ..i },
        InjectStep::ChmodDir => if i.with_agent {
            Injection { step: InjectStep::CreateAgentDir, ..i }
        } else {
            Injection { step: InjectStep::Detach, ..i }
        },
        InjectStep::CreateAgentDir => if ok {
            Injection { step: InjectStep::CopyAgent, ..i }
        } else {
            failing
        },
        InjectStep::CopyAgent => if ok {
            Injection { step: InjectStep::ChmodAgent, ..i }
        } else {
            failing
        },
        InjectStep::ChmodAgent => Injection { step: InjectStep::Detach, ..i },
        InjectStep::Detach => if ok {
            Injection { step: InjectStep::Done, attached: false, ..i }
        } else {
            failing
        },
        InjectStep::ForceDetach => Injection { step: InjectStep::Done, attached: false, ..i },
        InjectStep::Done => i,
    }
}

/// The arguments of `chmod` for a step, if it sets permissions: the key and its
/// directory are for the user alone, and the agent can be executed.
pub open spec fn chmod_command(step: InjectStep, mount: Seq<char>, agent: Seq<char>) -> Option<
    Seq<Seq<char>>,
> {
    match step {
        InjectStep::ChmodKey => Some(
            seq!["600"@, path_join(ssh_path(mount), "authorized_keys"@)],
        ),
        InjectStep::ChmodDir => Some(seq!["700"@, ssh_path(mount)]),
        InjectStep::ChmodAgent => Some(
            seq!["755"@, path_join(agent_volume_path(mount, agent), agent)],
        ),
        _ => None,
    }
}

/// The arguments of `hdiutil` for a step, if it runs it. Where the agent's binary is
/// written too, the disk is hidden from Finder and Spotlight and detached by force, as
/// indexing keeps it busy after a large file was written.
pub open spec fn hdiutil_command(
    step: InjectStep,
    with_agent: bool,
    disk: Seq<char>,
    device: Seq<char>,
) -> Option<Seq<Seq<char>>> {
    match step {
        InjectStep::Attach => Some(
            if with_agent {
                seq!["attach"@, "-owners"@, "off"@, "-nobrowse"@, disk]
            } else {
                seq!["attach"@, "-owners"@, "off"@, disk]
            },
        ),
        InjectStep::Detach => Some(
            if with_agent {
                seq!["detach"@, device, "-force"@]
            } else {
                seq!["detach"@, device]
            },
        ),
        InjectStep::ForceDetach => Some(seq!["detach"@, device, "-force"@]),
        _ => None,
    }
}

impl InjectStep {
    /// The arguments of `hdiutil` for the step, if it runs it.
    pub fn hdiutil_args(&self, with_agent: bool, disk: &str, device: &str) -> (r: Option<
        Vec<String>,
    >)
        ensures
            match hdiutil_command(*self, with_agent, disk@, device@) {
                Some(args) => r matches Some(v) && texts(v@) == args,
                None => r is None,
            },
    {
        match self {
            InjectStep::Attach => Some(attach_args(disk, with_agent)),
            InjectStep::Detach => Some(detach_args(device, with_agent)),
            InjectStep::ForceDetach => Some(detach_args(device, true)),
            _ => None,
        }
    }
}

/// An injection after some results.
pub open spec fn inject_through(i: Injection, results: Seq<bool>) -> Injection
    decreases results.len(),
{
    if results.len() == 0 {
        i
    } else {
        inject_after(inject_through(i, results.drop_last()), results.last())
    }
}

/// The start of an injection.
pub open spec fn inject_start(with_agent: bool) -> Injection {
    Injection { with_agent, attached: false, step: InjectStep::FindDisk, failed: None }
}

/// Put the public key into a VM's disk image.
pub fn inject_key() -> (r: Injection)
    ensures
        r == inject_start(false),
{
    Injection { with_agent: false, attached: false, step: InjectStep::FindDisk, failed: None }
}

/// Put both the public key and the agent's binary into a VM's disk image, in a
/// single attach/detach cycle. Used when creating warm VMs.
pub fn inject_warm_prereqs() -> (r: Injection)
    ensures
        r == inject_start(true),
{
    Injection { with_agent: true, attached: false, step: InjectStep::FindDisk, failed: None }
}

impl Injection {
    /// Take note of whether the step succeeded, and move on to the next.
    pub fn next(&mut self, ok: bool)
        ensures
            *final(self) == inject_after(*old(self), ok),
    {
        let step = self.step;
        let needed = match step {
            InjectStep::ChmodKey
            | InjectStep::ChmodDir
            | InjectStep::ChmodAgent
            | InjectStep::ForceDetach
            | InjectStep::Done => false,
            _ => true,
        };
        if needed && !ok {
            self.failed = Some(step);
            self.step = if self.attached {
                InjectStep::ForceDetach
            } else {
                InjectStep::Done
            };
            return ;
        }
        match step {
            InjectStep::FindDisk => {
                self.step = InjectStep::Attach;
            },
            InjectStep::Attach => {
                self.step = InjectStep::FindDevice;
            },
            InjectStep::FindDevice => {
                self.step = InjectStep::FindVolume;
                self.attached = true;
            },
            InjectStep::FindVolume => {
                self.step = InjectStep::CreateSshDir;
            },
            InjectStep::CreateSshDir => {
                self.step = InjectStep::WriteKey;
            },
            InjectStep::WriteKey => {
                self.step = InjectStep::ChmodKey;
            },
            InjectStep::ChmodKey => {
                self.step = InjectStep::ChmodDir;
            },
            InjectStep::ChmodDir => {
                self.step = if self.with_agent {
                    InjectStep::CreateAgentDir
                } else {
                    InjectStep::Detach
                };
            },
            InjectStep::CreateAgentDir => {
                self.step = InjectStep::CopyAgent;
            },
            InjectStep::CopyAgent => {
                self.step = InjectStep::ChmodAgent;
            },
            InjectStep::ChmodAgent => {
                self.step = InjectStep::Detach;
            },
            InjectStep::Detach | InjectStep::ForceDetach => {
                self.step = InjectStep::Done;
                self.attached = false;
            },
            InjectStep::Done => {},
        }
    }

    /// The arguments of `chmod` for a step that sets permissions on the volume at
    /// `mount`.
    pub fn chmod_args(step: InjectStep, mount: &str, agent: &str) -> (r: Option<Vec<String>>)
        ensures
            match chmod_command(step, mount@, agent@) {
                Some(args) => r matches Some(v) && texts(v@) == args,
                None => r is None,
            },
    {
        let r = match step {
            InjectStep::ChmodKey => vec!["600".to_owned(), authorized_keys(mount)],
            InjectStep::ChmodDir => vec!["700".to_owned(), ssh_dir(mount)],
            InjectStep::ChmodAgent => vec!["755".to_owned(), agent_on_disk(mount, agent)],
            _ => return None,
        };
        assert(texts(r@) =~= chmod_command(step, mount@, agent@)->0);
        Some(r)
    }

    /// The error of a step in words; it may name the disk image or the device.
    pub fn message(step: InjectStep, disk: &str, device: &str, agent: &str) -> (r: String)
        ensures
            r@ == match step {
                InjectStep::FindDisk => "VM disk not found at "@ + disk@,
                InjectStep::Attach => "hdiutil attach failed for "@ + disk@,
                InjectStep::FindDevice => "hdiutil output had no parent device"@,
                InjectStep::FindVolume =>
                    "could not find APFS Data volume (no Users/admin) in hdiutil output"@,
                InjectStep::CreateSshDir => "creating .ssh dir in guest disk"@,
                InjectStep::WriteKey => "opening authorized_keys"@,
                InjectStep::CreateAgentDir => "creating /opt/"@ + tool_name(agent@) + "/"@ + agent@
                    + " in guest disk"@,
                InjectStep::CopyAgent => "copying "@ + agent@ + " binary to guest disk"@,
                _ => "hdiutil detach failed for "@ + device@,
            },
    {
        match step {
            InjectStep::FindDisk => cat("VM disk not found at ", disk),
            InjectStep::Attach => cat("hdiutil attach failed for ", disk),
            InjectStep::FindDevice => "hdiutil output had no parent device".to_owned(),
            InjectStep::FindVolume =>
                "could not find APFS Data volume (no Users/admin) in hdiutil output".to_owned(),
            InjectStep::CreateSshDir => "creating .ssh dir in guest disk".to_owned(),
            InjectStep::WriteKey => "opening authorized_keys".to_owned(),
            InjectStep::CreateAgentDir => {
                let mut r = cat("creating /opt/", tool(agent).as_str());
                r.append("/");
                r.append(agent);
                r.append(" in guest disk");
                r
            },
            InjectStep::CopyAgent => {
                let mut r = cat("copying ", agent);
                r.append(" binary to guest disk");
                r
            },
            _ => cat("hdiutil detach failed for ", device),
        }
    }
}

// ---------------------------------------------------------------------------
// Laws
// ---------------------------------------------------------------------------

/// What holds of an injection at all times.
spec fn inject_inv(i: Injection) -> bool {
    &&& match i.step {
        InjectStep::FindDisk | InjectStep::Attach | InjectStep::FindDevice | InjectStep::Done =>
            !i.attached,
        _ => i.attached,
    }
    &&& match i.step {
        InjectStep::CreateAgentDir | InjectStep::CopyAgent | InjectStep::ChmodAgent => i.with_agent,
        _ => true,
    }
    &&& match i.step {
        InjectStep::ForceDetach => i.failed is Some,
        InjectStep::Done => true,
        _ => i.failed is None,
    }
}

proof fn lemma_inject_inv(with_agent: bool, results: Seq<bool>)
    ensures
        inject_inv(inject_through(inject_start(with_agent), results)),
        inject_through(inject_start(with_agent), results).with_agent == with_agent,
    decreases results.len(),
{
    if results.len() > 0 {
        lemma_inject_inv(with_agent, results.drop_last());
    }
}

/// No disk stays attached: whatever fails on the way, when an injection is over, the
/// device that was found was asked to be detached.
pub proof fn no_disk_stays_attached(with_agent: bool, results: Seq<bool>)
    ensures
        ({
            let i = inject_through(inject_start(with_agent), results);
            i.step == InjectStep::Done ==> !i.attached
        }),
{
    lemma_inject_inv(with_agent, results);
}

/// How many times a step was done in the course of an injection.
pub open spec fn times_done(with_agent: bool, results: Seq<bool>, step: InjectStep) -> nat
    decreases results.len(),
{
    if results.len() == 0 {
        0
    } else {
        let short = results.drop_last();
        times_done(with_agent, short, step) + (if inject_through(
            inject_start(with_agent),
            short,
        ).step == step {
            1nat
        } else {
            0nat
        })
    }
}

/// Whether the device is known when a step is done.
pub open spec fn knows_device(step: InjectStep) -> bool {
    match step {
        InjectStep::FindDisk | InjectStep::Attach | InjectStep::FindDevice => false,
        _ => true,
    }
}

/// The guard of the device: an injection that fails once the device is known detaches
/// it by force exactly once, whatever comes of that; one that fails before, or that
/// has detached the device, never does. A successful injection detaches exactly once.
pub proof fn device_is_detached_exactly_once(with_agent: bool, results: Seq<bool>)
    ensures
        ({
            let i = inject_through(inject_start(with_agent), results);
            let plain = times_done(with_agent, results, InjectStep::Detach);
            let forced = times_done(with_agent, results, InjectStep::ForceDetach);
            i.step == InjectStep::Done ==> match i.failed {
                None => plain == 1 && forced == 0,
                Some(step) => {
                    &&& forced == if knows_device(step) {
                        1nat
                    } else {
                        0nat
                    }
                    &&& plain == if step == InjectStep::Detach {
                        1nat
                    } else {
                        0nat
                    }
                },
            }
        }),
        forall|disk: Seq<char>, device: Seq<char>| #[trigger]
            hdiutil_command(InjectStep::ForceDetach, with_agent, disk, device) == Some(
                seq!["detach"@, device, "-force"@],
            ),
{
    lemma_detaches(with_agent, results);
}

proof fn lemma_detaches(with_agent: bool, results: Seq<bool>)
    ensures
        ({
            let i = inject_through(inject_start(with_agent), results);
            let plain = times_done(with_agent, results, InjectStep::Detach);
            let forced = times_done(with_agent, results, InjectStep::ForceDetach);
            match i.step {
                InjectStep::ForceDetach => {
                    &&& forced == 0
                    &&& i.failed matches Some(step) && knows_device(step) && plain == if step
                        == InjectStep::Detach {
                        1nat
                    } else {
                        0nat
                    }
                },
                InjectStep::Done => match i.failed {
                    None => plain == 1 && forced == 0,
                    Some(step) => {
                        &&& forced == if knows_device(step) {
                            1nat
                        } else {
                            0nat
                        }
                        &&& plain == if step == InjectStep::Detach {
                            1nat
                        } else {
                            0nat
                        }
                    },
                },
                _ => plain == 0 && forced == 0,
            }
        }),
    decreases results.len(),
{
    lemma_inject_inv(with_agent, results);
    if results.len() > 0 {
        lemma_inject_inv(with_agent, results.drop_last());
        lemma_detaches(with_agent, results.drop_last());
    }
}

/// The agent's binary is written only where it was asked for.
pub proof fn agent_is_copied_on_request(results: Seq<bool>)
    ensures
        inject_through(inject_start(false), results).step != InjectStep::CopyAgent,
{
    lemma_inject_inv(false, results);
}

/// How far an injection has come.
pub open spec fn inject_rank(step: InjectStep) -> nat {
    match step {
        InjectStep::FindDisk => 0,
        InjectStep::Attach => 1,
        InjectStep::FindDevice => 2,
        InjectStep::FindVolume => 3,
        InjectStep::CreateSshDir => 4,
        InjectStep::WriteKey => 5,
        InjectStep::ChmodKey => 6,
        InjectStep::ChmodDir => 7,
        InjectStep::CreateAgentDir => 8,
        InjectStep::CopyAgent => 9,
        InjectStep::ChmodAgent => 10,
        InjectStep::Detach => 11,
        InjectStep::ForceDetach => 12,
        InjectStep::Done => 13,
    }
}

/// Every injection comes to an end: each result brings it closer, and after thirteen
/// it is over.
pub proof fn every_injection_ends(with_agent: bool, results: Seq<bool>)
    ensures
        inject_rank(inject_through(inject_start(with_agent), results).step) >= if results.len()
            < 13 {
            results.len() as int
        } else {
            13
        },
        results.len() >= 13 ==> inject_through(inject_start(with_agent), results).step
            == InjectStep::Done,
    decreases results.len(),
{
    if results.len() > 0 {
        every_injection_ends(with_agent, results.drop_last());
    }
}

// ---------------------------------------------------------------------------
// What is read from an attachment, and where files go
// ---------------------------------------------------------------------------

/// The columns of a line stand between its tabs: the first in front of the first tab, the
/// third behind the second. A line with fewer than two tabs has no third column.
pub proof fn columns_stand_between_tabs(a: Seq<char>, b: Seq<char>, c: Seq<char>)
    requires
        !a.contains('\t'),
        !b.contains('\t'),
    ensures
        first_column(a) == a,
        third_column(a) is None,
        first_column(a + seq!['\t'] + b) == a,
        third_column(a + seq!['\t'] + b) is None,
        first_column(a + seq!['\t'] + b + seq!['\t'] + c) == a,
        third_column(a + seq!['\t'] + b + seq!['\t'] + c) == Some(c),
{
    lemma_tab(a, b);
    lemma_tab(a, b + seq!['\t'] + c);
    lemma_tab(b, c);
    let two = a + seq!['\t'] + b;
    let three = a + seq!['\t'] + (b + seq!['\t'] + c);
    assert(a + seq!['\t'] + b + seq!['\t'] + c =~= three);
    assert(two.skip(a.len() as int + 1) =~= b);
    assert(three.skip(a.len() as int + 1) =~= b + seq!['\t'] + c);
    assert((b + seq!['\t'] + c).skip(b.len() as int + 1) =~= c);
    assert(two.take(a.len() as int) =~= a);
    assert(three.take(a.len() as int) =~= a);
    assert(a.take(a.len() as int) =~= a);
}

proof fn lemma_tab(a: Seq<char>, b: Seq<char>)
    requires
        !a.contains('\t'),
    ensures
        first_index(a, '\t') == a.len(),
        first_index(a + seq!['\t'] + b, '\t') == a.len(),
{
    let s = a + seq!['\t'] + b;
    assert forall|j: int| 0 <= j < a.len() implies a[j] != '\t' && s[j] != '\t' by {
        assert(a.contains(a[j]));
        assert(s[j] == a[j]);
    }
    crate::text::lemma_first_index_at(a, '\t', a.len() as int);
    crate::text::lemma_first_index_at(s, '\t', a.len() as int);
}

/// A disk with a number is a whole disk, a partition of it is none, and nor is anything
/// else.
pub proof fn partitions_are_no_whole_disks(number: Seq<char>, rest: Seq<char>, dev: Seq<char>)
    requires
        forall|i: int| 0 <= i < number.len() ==> '0' <= #[trigger] number[i] <= '9',
        number.len() > 0,
    ensures
        is_whole_disk("/dev/disk"@ + number),
        !is_whole_disk("/dev/disk"@ + number + seq!['s'] + rest),
        !"/dev/disk"@.is_prefix_of(dev) ==> !is_whole_disk(dev),
{
    reveal_strlit("/dev/disk");
    let p = "/dev/disk"@;
    let tail = number + seq!['s'] + rest;
    assert(p + number + seq!['s'] + rest =~= p + tail);
    assert(number[0] != '/');
    assert(!p.is_prefix_of(number)) by {
        assert(p[0] == '/');
        if p.is_prefix_of(number) {
            assert(number.take(p.len() as int)[0] == number[0]);
        }
    }
    assert(!p.is_prefix_of(tail)) by {
        assert(tail[0] == number[0]);
        if p.is_prefix_of(tail) {
            assert(tail.take(p.len() as int)[0] == tail[0]);
        }
    }
    crate::text::prefixes_are_taken_off(number, p);
    crate::text::prefixes_are_taken_off(tail, p);
    assert((p + number).take(p.len() as int) =~= p);
    assert((p + tail).take(p.len() as int) =~= p);
    assert(tail[number.len() as int] == 's');
    if number.contains('s') {
        let i = choose|i: int| 0 <= i < number.len() && number[i] == 's';
        assert('0' <= number[i] <= '9');
    }
}

/// The device of an attachment is the first whole disk in its first column, wherever that
/// stands; where there is none, no line has one.
pub proof fn first_whole_disk_is_the_device(ls: Seq<Seq<char>>)
    ensures
        match parent_device(ls) {
            Some(dev) => exists|i: int|
                0 <= i < ls.len() && trimmed(first_column(#[trigger] ls[i])) == dev && is_whole_disk(
                    dev,
                ) && forall|j: int|
                    0 <= j < i ==> !is_whole_disk(trimmed(first_column(#[trigger] ls[j]))),
            None => forall|j: int|
                0 <= j < ls.len() ==> !is_whole_disk(trimmed(first_column(#[trigger] ls[j]))),
        },
    decreases ls.len(),
{
    if ls.len() > 0 {
        let short = ls.drop_last();
        first_whole_disk_is_the_device(short);
        match parent_device(short) {
            Some(dev) => {
                let i = choose|i: int|
                    0 <= i < short.len() && trimmed(first_column(#[trigger] short[i])) == dev
                        && is_whole_disk(dev) && forall|j: int|
                        0 <= j < i ==> !is_whole_disk(trimmed(first_column(#[trigger] short[j])));
                assert(ls[i] == short[i]);
                assert forall|j: int| 0 <= j < i implies !is_whole_disk(
                    trimmed(first_column(#[trigger] ls[j])),
                ) by {
                    assert(short[j] == ls[j]);
                }
            },
            None => {
                let last = ls.len() - 1;
                assert forall|j: int| 0 <= j < last implies !is_whole_disk(
                    trimmed(first_column(#[trigger] ls[j])),
                ) by {
                    assert(short[j] == ls[j]);
                }
                assert(ls[last] == ls.last());
            },
        }
    }
}

/// Every line whose third column is more than white space tells a mount point, and no
/// other line does; they are read in the order of the lines.
pub proof fn every_mount_point_is_read(ls: Seq<Seq<char>>, line: Seq<char>)
    ensures
        mount_points(seq![]) == Seq::<Seq<char>>::empty(),
        mount_points(ls.push(line)) == match third_column(line) {
            Some(c) => if trimmed(c).len() > 0 {
                mount_points(ls).push(trimmed(c))
            } else {
                mount_points(ls)
            },
            None => mount_points(ls),
        },
{
    assert(ls.push(line).drop_last() =~= ls);
}

/// There is one Data volume at most: the last mount point with a home directory.
pub proof fn data_volume_is_the_last(has_home: Seq<bool>, n: int, i: int, j: int)
    requires
        n <= has_home.len(),
        is_data_mount(has_home, n, i),
        0 <= j < n,
        has_home[j],
    ensures
        0 <= i < n,
        has_home[i],
        j <= i,
{
    if j > i {
        assert(!has_home[j]);
    }
}

/// The disk image of a VM lies in tart's directory below the home directory of the host.
pub proof fn disks_lie_below_home(home: Seq<char>, vm_name: Seq<char>)
    requires
        home.len() > 0,
        home.last() != '/',
        vm_name.len() > 0,
        !vm_name.contains('/'),
    ensures
        disk_path(home, vm_name) == home + "/.tart/vms/"@ + vm_name + "/disk.img"@,
{
    reveal_strlit(".tart");
    reveal_strlit("vms");
    reveal_strlit("disk.img");
    reveal_strlit("/.tart/vms/");
    reveal_strlit("/disk.img");
    assert(vm_name.contains(vm_name[0]) && vm_name.contains(vm_name.last()));
    lemma_plain_join(home, ".tart"@);
    let a = home + seq!['/'] + ".tart"@;
    lemma_plain_join(a, "vms"@);
    let b = a + seq!['/'] + "vms"@;
    lemma_plain_join(b, vm_name);
    let c = b + seq!['/'] + vm_name;
    lemma_plain_join(c, "disk.img"@);
    assert(b + seq!['/'] =~= home + "/.tart/vms/"@);
    assert(seq!['/'] + "disk.img"@ =~= "/disk.img"@);
    assert(c + seq!['/'] + "disk.img"@ =~= home + "/.tart/vms/"@ + vm_name + "/disk.img"@);
}

/// The key goes to the user's own key file on a volume of the guest.
pub proof fn keys_go_to_the_user(mount: Seq<char>)
    requires
        mount.len() > 0,
        mount.last() != '/',
    ensures
        ssh_path(mount) == mount + "/Users/admin/.ssh"@,
        path_join(ssh_path(mount), "authorized_keys"@) == mount
            + "/Users/admin/.ssh/authorized_keys"@,
{
    reveal_strlit("Users");
    reveal_strlit("admin");
    reveal_strlit(".ssh");
    reveal_strlit("/Users/admin/.ssh");
    reveal_strlit("authorized_keys");
    reveal_strlit("/Users/admin/.ssh/authorized_keys");
    lemma_plain_join(mount, "Users"@);
    let u = mount + seq!['/'] + "Users"@;
    lemma_plain_join(u, "admin"@);
    let v = u + seq!['/'] + "admin"@;
    lemma_plain_join(v, ".ssh"@);
    let w = v + seq!['/'] + ".ssh"@;
    lemma_plain_join(w, "authorized_keys"@);
    assert(w =~= mount + "/Users/admin/.ssh"@);
    assert(w + seq!['/'] + "authorized_keys"@ =~= mount + "/Users/admin/.ssh/authorized_keys"@);
}

/// The agent's binary lies on a volume where the guest looks for it.
pub proof fn agent_lies_where_the_guest_looks(mount: Seq<char>, agent: Seq<char>)
    requires
        mount.len() > 0,
        mount.last() != '/',
        agent.len() > 0,
        !agent.contains('/'),
    ensures
        agent_volume_path(mount, agent) == mount + ("/opt/"@ + agent + "-box"@ + "/"@ + agent),
        path_join(agent_volume_path(mount, agent), agent) == mount + ("/opt/"@ + agent + "-box"@
            + "/"@ + agent + "/"@ + agent),
{
    reveal_strlit("opt");
    reveal_strlit("/opt/");
    reveal_strlit("-box");
    reveal_strlit("/");
    assert(agent.contains(agent[0]) && agent.contains(agent.last()));
    lemma_plain_join(mount, "opt"@);
    let x = mount + seq!['/'] + "opt"@;
    lemma_plain_join(x, agent + "-box"@);
    let y = x + seq!['/'] + (agent + "-box"@);
    lemma_plain_join(y, agent);
    let z = y + seq!['/'] + agent;
    lemma_plain_join(z, agent);
    assert("/"@ =~= seq!['/']);
    assert(x + seq!['/'] =~= mount + "/opt/"@);
    assert(z =~= mount + ("/opt/"@ + agent + "-box"@ + "/"@ + agent));
    assert(z + seq!['/'] + agent =~= mount + ("/opt/"@ + agent + "-box"@ + "/"@ + agent + "/"@
        + agent));
}

proof fn lemma_plain_join(base: Seq<char>, name: Seq<char>)
    requires
        base.len() > 0,
        base.last() != '/',
        name.len() > 0,
        name[0] != '/',
    ensures
        path_join(base, name) == base + seq!['/'] + name,
{
    assert(base.push('/') + name =~= base + seq!['/'] + name);
}

/// The commands of the steps. The key and its directory are for the user alone, and the
/// agent can be executed. What is detached is the device that was found.
pub proof fn injections_run_these_commands(
    step: InjectStep,
    mount: Seq<char>,
    agent: Seq<char>,
    disk: Seq<char>,
    device: Seq<char>,
)
    ensures
        chmod_command(step, mount, agent) == match step {
            InjectStep::ChmodKey => Some(
                seq!["600"@, path_join(ssh_path(mount), "authorized_keys"@)],
            ),
            InjectStep::ChmodDir => Some(seq!["700"@, ssh_path(mount)]),
            InjectStep::ChmodAgent => Some(
                seq!["755"@, path_join(agent_volume_path(mount, agent), agent)],
            ),
            _ => None,
        },
        hdiutil_command(step, false, disk, device) == match step {
            InjectStep::Attach => Some(seq!["attach"@, "-owners"@, "off"@, disk]),
            InjectStep::Detach => Some(seq!["detach"@, device]),
            InjectStep::ForceDetach => Some(seq!["detach"@, device, "-force"@]),
            _ => None,
        },
        hdiutil_command(step, true, disk, device) == match step {
            InjectStep::Attach => Some(
                seq!["attach"@, "-owners"@, "off"@, "-nobrowse"@, disk],
            ),
            InjectStep::Detach | InjectStep::ForceDetach => Some(
                seq!["detach"@, device, "-force"@],
            ),
            _ => None,
        },
{
}

/// An injection in which every step succeeds takes these steps in this order.
pub proof fn injection_takes_these_steps(with_agent: bool, results: Seq<bool>, j: int)
    requires
        forall|k: int| 0 <= k < results.len() ==> #[trigger] results[k],
        0 <= j <= results.len(),
        j < if with_agent {
            13int
        } else {
            10
        },
    ensures
        ({
            let list = seq![
                InjectStep::FindDisk,
                InjectStep::Attach,
                InjectStep::FindDevice,
                InjectStep::FindVolume,
                InjectStep::CreateSshDir,
                InjectStep::WriteKey,
                InjectStep::ChmodKey,
                InjectStep::ChmodDir,
            ] + (if with_agent {
                seq![InjectStep::CreateAgentDir, InjectStep::CopyAgent, InjectStep::ChmodAgent]
            } else {
                seq![]
            }) + seq![InjectStep::Detach, InjectStep::Done];
            let i = inject_through(inject_start(with_agent), results.take(j));
            &&& i.step == list[j]
            &&& i.failed is None
        }),
    decreases j,
{
    lemma_inject_inv(with_agent, results.take(j));
    if j > 0 {
        injection_takes_these_steps(with_agent, results, j - 1);
        lemma_inject_inv(with_agent, results.take(j - 1));
        assert(results.take(j).drop_last() =~= results.take(j - 1));
        assert(results.take(j).last() == results[j - 1]);
    }
}

/// A step that fails gives the injection its error: it is over at once as long as no
/// device is known, and goes on with detaching it by force afterwards. Only the steps
/// that set permissions, and the detaching by force, may fail without consequences.
pub proof fn failed_injections_detach(with_agent: bool, results: Seq<bool>)
    requires
        results.len() > 0,
        !results.last(),
    ensures
        ({
            let before = inject_through(inject_start(with_agent), results.drop_last());
            let i = inject_through(inject_start(with_agent), results);
            match before.step {
                InjectStep::FindDisk | InjectStep::Attach | InjectStep::FindDevice => i.step
                    == InjectStep::Done && i.failed == Some(before.step),
                InjectStep::FindVolume
                | InjectStep::CreateSshDir
                | InjectStep::WriteKey
                | InjectStep::CreateAgentDir
                | InjectStep::CopyAgent
                | InjectStep::Detach => i.step == InjectStep::ForceDetach && i.failed == Some(
                    before.step,
                ),
                InjectStep::ChmodKey => i.step == InjectStep::ChmodDir && i.failed is None,
                InjectStep::ChmodDir => i.step == (if with_agent {
                    InjectStep::CreateAgentDir
                } else {
                    InjectStep::Detach
                }) && i.failed is None,
                InjectStep::ChmodAgent => i.step == InjectStep::Detach && i.failed is None,
                InjectStep::ForceDetach | InjectStep::Done => i.step == InjectStep::Done && i.failed
                    == before.failed,
            }
        }),
{
    lemma_inject_inv(with_agent, results.drop_last());
}

/// A stored key is a text that holds a key, and it is that key; bytes that are no text hold
/// none.
pub proof fn stored_keys_are_texts(pem: Seq<u8>)
    ensures
        valid_utf8(pem) ==> stored_key(pem) == decoded_key(decode_utf8(pem)),
        !valid_utf8(pem) ==> stored_key(pem) is None,
{
}

/// A volume with a home directory is never missed: where a mount point has one, that one or
/// a later one that has one too is found.
pub proof fn data_volume_is_found(
    mounts: &Vec<String>,
    has_home: &Vec<bool>,
    r: Option<String>,
    j: int,
)
    requires
        call_ensures(data_mount, (mounts, has_home), r),
        mounts@.len() == has_home@.len(),
        0 <= j < mounts@.len(),
        has_home@[j],
    ensures
        r matches Some(m) && exists|i: int|
            j <= i < mounts@.len() && has_home@[i] && m@ == (#[trigger] mounts@[i])@,
{
    match r {
        Some(m) => {
            let i = choose|i: int| #[trigger]
                is_data_mount(has_home@, mounts.len() as int, i) && m@ == mounts@[i]@;
            assert(m@ == mounts@[i]@);
            if i < j {
                assert(!has_home@[j]);
            }
        },
        None => {
            assert(has_home@.contains(true));
        },
    }
}

} // verus!
