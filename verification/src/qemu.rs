//! QEMU virtual machines: configuration, the VNC state of a running
//! instance, and the allocation of VNC displays.
use vstd::prelude::*;
use vstd::string::*;

use std::collections::HashSet;

use crate::models::Image;
use crate::text;
use crate::text::{owned, push_decimal};

verus! {

broadcast use vstd::std_specs::hash::group_hash_axioms;

/// Why an operation on a QEMU virtual machine failed.
#[derive(Debug)]
pub enum QemuError {
    SpawnFailed(std::io::Error),
    NodeNotRunning,
    NodeAlreadyRunning,
    VncNotEnabled,
    VncAlreadyEnabled,
    VncPortAllocationFailed,
    InvalidConfiguration(String),
    ProcessExited(String),
    MonitorError(String),
    ImageNotFound(u128),
    ImagePathError(String),
}

/// Options for starting a virtual machine.
#[derive(Debug, Clone)]
pub struct QemuConfig {
    /// Memory size in MB.
    pub memory_mb: u64,
    /// Number of CPU cores.
    pub cpu_cores: u32,
    /// Whether KVM acceleration is used.
    pub enable_kvm: bool,
    /// VNC display number, if VNC is enabled.
    pub vnc_display: Option<u16>,
    /// Additional QEMU arguments.
    pub extra_args: Vec<String>,
}

impl Default for QemuConfig {
    /// 1024 MB of memory, one core, KVM on, no VNC, no extra arguments.
    fn default() -> (c: Self)
        ensures
            c.memory_mb == 1024,
            c.cpu_cores == 1,
            c.enable_kvm,
            c.vnc_display is None,
            c.extra_args@.len() == 0,
    {
        QemuConfig {
            memory_mb: 1024,
            cpu_cores: 1,
            enable_kvm: true,
            vnc_display: None,
            extra_args: Vec::new(),
        }
    }
}

/// What the program knows of a running QEMU instance.
#[derive(Debug)]
pub struct QemuInstance {
    pub node_id: u128,
    /// The VNC port, while VNC is enabled.
    pub vnc_port: Option<u16>,
    /// Path of the QEMU monitor socket.
    pub monitor_socket: Option<String>,
}

/// The TCP port of VNC display `display`.
pub open spec fn vnc_port_of(display: u16) -> int {
    5900 + display
}

/// The TCP port of VNC display `display`; `VncPortAllocationFailed` when it
/// would not be a valid port.
pub fn vnc_port_for_display(display: u16) -> (r: Result<u16, QemuError>)
    ensures
        vnc_port_of(display) <= u16::MAX ==> r == Ok::<u16, QemuError>(vnc_port_of(display) as u16),
        vnc_port_of(display) > u16::MAX ==> r matches Err(QemuError::VncPortAllocationFailed),
{
    if display <= 65535 - 5900 {
        Ok(5900 + display)
    } else {
        Err(QemuError::VncPortAllocationFailed)
    }
}

/// The monitor command that turns VNC on at display `display`: `change vnc :<display>`.
pub fn enable_vnc_command(display: u16) -> (r: String)
    ensures
        r@ == "change vnc :"@ + text::decimal(display as nat),
{
    let mut out = owned("change vnc :");
    push_decimal(&mut out, display as u64);
    out
}

/// The monitor command that turns VNC off: `change vnc none`.
pub fn disable_vnc_command() -> (r: String)
    ensures
        r@ == "change vnc none"@,
{
    owned("change vnc none")
}

/// The host name under which a local VNC server is reached.
pub open spec fn vnc_host() -> Seq<char> {
    "localhost"@
}

/// Where a VNC server with port `vnc_port` is reached, if VNC is on.
pub open spec fn vnc_info_of(vnc_port: Option<u16>) -> Option<(Seq<char>, u16)> {
    match vnc_port {
        Some(p) => Some((vnc_host(), p)),
        None => None,
    }
}

/// The VNC port an instance records after VNC is enabled on `display`: the
/// display's port when it is a valid port, the earlier state otherwise.
pub open spec fn vnc_port_after_enable(before: Option<u16>, display: u16) -> Option<u16> {
    if vnc_port_of(display) <= u16::MAX {
        Some(vnc_port_of(display) as u16)
    } else {
        before
    }
}

impl QemuInstance {
    /// Records that VNC now runs on display `display`, and returns its port.
    pub fn record_vnc_enabled(&mut self, display: u16) -> (r: Result<u16, QemuError>)
        ensures
            vnc_port_of(display) <= u16::MAX ==> r == Ok::<u16, QemuError>(
                vnc_port_of(display) as u16,
            ),
            vnc_port_of(display) > u16::MAX ==> r matches Err(QemuError::VncPortAllocationFailed),
            final(self).vnc_port == vnc_port_after_enable(old(self).vnc_port, display),
            final(self).node_id == old(self).node_id,
            final(self).monitor_socket == old(self).monitor_socket,
    {
        match vnc_port_for_display(display) {
            Ok(port) => {
                self.vnc_port = Some(port);
                Ok(port)
            },
            Err(e) => Err(e),
        }
    }

    /// Records that VNC no longer runs.
    pub fn record_vnc_disabled(&mut self)
        ensures
            final(self).vnc_port is None,
            final(self).node_id == old(self).node_id,
            final(self).monitor_socket == old(self).monitor_socket,
    {
        self.vnc_port = None;
    }
}

/// Where to connect to the instance's VNC server: the local host and the VNC
/// port; `VncNotEnabled` when VNC is off.
pub fn get_vnc_info(instance: &QemuInstance) -> (r: Result<(String, u16), QemuError>)
    ensures
        match vnc_info_of(instance.vnc_port) {
            Some((h, p)) => r matches Ok((host, q)) && host@ == h && q == p,
            None => r matches Err(QemuError::VncNotEnabled),
        },
{
    match instance.vnc_port {
        Some(port) => Ok((owned("localhost"), port)),
        None => Err(QemuError::VncNotEnabled),
    }
}

/// The VNC display to switch on before registering the instance with
/// Guacamole: `None` when VNC already runs, otherwise the requested display
/// or display 0.
pub fn display_to_enable(instance: &QemuInstance, vnc_display: Option<u16>) -> (r: Option<u16>)
    ensures
        instance.vnc_port is Some ==> r is None,
        instance.vnc_port is None ==> r == Some(
            match vnc_display {
                Some(d) => d,
                None => 0u16,
            },
        ),
{
    if instance.vnc_port.is_none() {
        Some(vnc_display.unwrap_or(0))
    } else {
        None
    }
}

/// Finds the lowest display in `range_start..range_end` that is not in
/// `used_displays`; `VncPortAllocationFailed` when all of them are used.
pub fn allocate_vnc_display(used_displays: &HashSet<u16>, range_start: u16, range_end: u16) -> (r:
    Result<u16, QemuError>)
    ensures
        match r {
            Ok(d) => range_start <= d < range_end && !used_displays@.contains(d) && forall|e: u16|
                range_start <= e < d ==> used_displays@.contains(e),
            Err(e) => e is VncPortAllocationFailed && forall|e: u16|
                range_start <= e < range_end ==> used_displays@.contains(e),
        },
{
    let mut d = range_start;
    while d < range_end
        invariant
            range_start <= d,
            forall|e: u16| range_start <= e < d ==> used_displays@.contains(e),
        decreases range_end - d,
    {
        if !used_displays.contains(&d) {
            return Ok(d);
        }
        d = d + 1;
    }
    Err(QemuError::VncPortAllocationFailed)
}

/// `i` is the first row of `images` with id `id`.
pub open spec fn is_first_with_id(images: Seq<Image>, id: u128, i: int) -> bool {
    &&& 0 <= i < images.len()
    &&& images[i].id == id
    &&& forall|j: int| 0 <= j < i ==> (#[trigger] images[j]).id != id
}

/// The first row of `images` with id `id`, if any.
pub open spec fn find_image(images: Seq<Image>, id: u128) -> Option<int> {
    if exists|i: int| is_first_with_id(images, id, i) {
        Some(choose|i: int| is_first_with_id(images, id, i))
    } else {
        None
    }
}

/// What following the parent links from an image gives.
pub enum ChainWalk {
    /// The rows of the chain, from the base image to the image started from.
    Found(Seq<int>),
    /// No row has this id.
    Missing(u128),
    /// The links go on for longer than there are rows: they form a cycle.
    Cycle,
}

/// Follows the parent links from the image `id` through `images`, taking at
/// most `steps` links.
pub open spec fn chain_walk(images: Seq<Image>, id: u128, steps: nat) -> ChainWalk
    decreases steps,
{
    match find_image(images, id) {
        None => ChainWalk::Missing(id),
        Some(i) => match images[i].parent_id {
            None => ChainWalk::Found(seq![i]),
            Some(p) => if steps == 0 {
                ChainWalk::Cycle
            } else {
                match chain_walk(images, p, (steps - 1) as nat) {
                    ChainWalk::Found(s) => ChainWalk::Found(s.push(i)),
                    other => other,
                }
            },
        },
    }
}

/// The message of the error for parent links that form a cycle.
pub open spec fn cycle_message() -> Seq<char> {
    "image parent links form a cycle"@
}

/// `r` is the result that the walk `w` stands for.
pub open spec fn chain_result_matches(r: Result<Vec<usize>, QemuError>, w: ChainWalk) -> bool {
    match w {
        ChainWalk::Found(s) => r matches Ok(v) && v@.map_values(|k: usize| k as int) == s,
        ChainWalk::Missing(id) => r matches Err(QemuError::ImageNotFound(m)) && m == id,
        ChainWalk::Cycle => r matches Err(QemuError::InvalidConfiguration(msg)) && msg@
            == cycle_message(),
    }
}

fn find_image_row(images: &Vec<Image>, id: u128) -> (r: Option<usize>)
    ensures
        r is None <==> find_image(images@, id) is None,
        r matches Some(i) ==> i < images@.len() && find_image(images@, id) == Some(i as int),
{
    let mut i: usize = 0;
    while i < images.len()
        invariant
            i <= images@.len(),
            forall|j: int| 0 <= j < i ==> (#[trigger] images@[j]).id != id,
        decreases images@.len() - i,
    {
        if images[i].id == id {
            assert(is_first_with_id(images@, id, i as int));
            let ghost c = choose|k: int| is_first_with_id(images@, id, k);
            assert(c == i) by {
                if c < i {
                    assert(images@[c].id != id);
                }
                if i < c {
                    assert(images@[i as int].id != id);
                }
            }
            return Some(i);
        }
        i = i + 1;
    }
    assert(!exists|k: int| is_first_with_id(images@, id, k)) by {
        if exists|k: int| is_first_with_id(images@, id, k) {
            let k = choose|k: int| is_first_with_id(images@, id, k);
            assert(images@[k].id != id);
        }
    }
    None
}

fn walk_chain(images: &Vec<Image>, id: u128, steps: usize) -> (r: Result<Vec<usize>, QemuError>)
    ensures
        chain_result_matches(r, chain_walk(images@, id, steps as nat)),
    decreases steps,
{
    let ghost w = chain_walk(images@, id, steps as nat);
    match find_image_row(images, id) {
        None => {
            assert(w == ChainWalk::Missing(id));
            Err(QemuError::ImageNotFound(id))
        },
        Some(i) => match images[i].parent_id {
            None => {
                assert(w == ChainWalk::Found(seq![i as int]));
                let mut v: Vec<usize> = Vec::new();
                v.push(i);
                assert(v@.map_values(|k: usize| k as int) =~= seq![i as int]);
                Ok(v)
            },
            Some(p) => {
                if steps == 0 {
                    Err(QemuError::InvalidConfiguration(owned("image parent links form a cycle")))
                } else {
                    match walk_chain(images, p, steps - 1) {
                        Ok(mut v) => {
                            let ghost before = v@;
                            v.push(i);
                            assert(v@.map_values(|k: usize| k as int) =~= before.map_values(
                                |k: usize| k as int,
                            ).push(i as int));
                            Ok(v)
                        },
                        Err(e) => Err(e),
                    }
                }
            },
        },
    }
}

/// What `get_image_chain` walks: from `image_id` through at most as many
/// links as there are rows besides the first.
pub open spec fn image_chain_walk(images: Seq<Image>, image_id: u128) -> ChainWalk {
    chain_walk(images, image_id, if images.len() == 0 {
        0
    } else {
        (images.len() - 1) as nat
    })
}

/// The chain of images from the base image up to the image `image_id`, as
/// indices into `images` (the rows fetched from the database): the image's
/// row, then its parent's, and so on until a base image, listed from the base
/// image to the image itself. `ImageNotFound` names the first id of the chain
/// that no row has; a chain longer than there are rows is a cycle.
pub fn get_image_chain(images: &Vec<Image>, image_id: u128) -> (r: Result<Vec<usize>, QemuError>)
    ensures
        chain_result_matches(r, image_chain_walk(images@, image_id)),
{
    let steps = if images.len() == 0 {
        0
    } else {
        images.len() - 1
    };
    walk_chain(images, image_id, steps)
}

// ---------------------------------------------------------------------------
// Laws.

/// What is written is read back: once VNC is recorded as enabled on a
/// display whose port is valid, whatever the state before, the instance's VNC
/// server is reported at the local host and port 5900 plus the display; once
/// it is recorded as disabled, no VNC server is reported.
pub proof fn law_vnc_state_read_back(before: Option<u16>, display: u16)
    requires
        vnc_port_of(display) <= u16::MAX,
    ensures
        vnc_info_of(vnc_port_after_enable(before, display)) == Some(
            (vnc_host(), (5900 + display) as u16),
        ),
        vnc_info_of(None) is None,
{
}

/// `s` lists rows of `images` from a base image up to the image `id`: each
/// row is the first with its id, the first row's image has no parent, and the
/// image of each row is the parent of the next row's image.
pub open spec fn is_ancestry(images: Seq<Image>, id: u128, s: Seq<int>) -> bool {
    &&& s.len() >= 1
    &&& is_first_with_id(images, id, s.last())
    &&& images[s[0]].parent_id is None
    &&& forall|k: int|
        0 <= k < s.len() - 1 ==> is_first_with_id(images, images[#[trigger] s[k]].id, s[k])
            && images[s[k + 1]].parent_id == Some(images[s[k]].id)
}

proof fn lemma_find_first(images: Seq<Image>, id: u128, i: int)
    requires
        is_first_with_id(images, id, i),
    ensures
        find_image(images, id) == Some(i),
{
    let c = choose|k: int| is_first_with_id(images, id, k);
    if c < i {
        assert(images[c].id != id);
    }
    if i < c {
        assert(images[i].id != id);
    }
}

/// A chain that the walk finds runs from a base image to the image it started
/// from, each row's image being the parent of the next one's.
pub proof fn law_image_chain_links(images: Seq<Image>, id: u128, steps: nat)
    requires
        chain_walk(images, id, steps) is Found,
    ensures
        ({
            let s = chain_walk(images, id, steps)->Found_0;
            &&& s.len() >= 1
            &&& forall|k: int| 0 <= k < s.len() ==> 0 <= #[trigger] s[k] < images.len()
            &&& images[s.last()].id == id
            &&& images[s[0]].parent_id is None
            &&& forall|k: int|
                0 <= k < s.len() - 1 ==> images[#[trigger] s[k + 1]].parent_id == Some(
                    images[s[k]].id,
                )
            &&& is_ancestry(images, id, s)
        }),
    decreases steps,
{
    let i = find_image(images, id)->0;
    assert(is_first_with_id(images, id, i));
    match images[i].parent_id {
        None => {},
        Some(p) => {
            law_image_chain_links(images, p, (steps - 1) as nat);
            let t = chain_walk(images, p, (steps - 1) as nat)->Found_0;
            let s = t.push(i);
            assert forall|k: int| 0 <= k < s.len() - 1 implies images[#[trigger] s[k + 1]].parent_id
                == Some(images[s[k]].id) by {
                if k < t.len() - 1 {
                    assert(s[k + 1] == t[k + 1] && s[k] == t[k]);
                } else {
                    assert(s[k] == t.last());
                }
            }
            assert forall|k: int| 0 <= k < s.len() implies 0 <= #[trigger] s[k] < images.len() by {
                if k < t.len() {
                    assert(s[k] == t[k]);
                }
            }
            assert forall|k: int| 0 <= k < s.len() - 1 implies is_first_with_id(
                images,
                images[#[trigger] s[k]].id,
                s[k],
            ) && images[s[k + 1]].parent_id == Some(images[s[k]].id) by {
                if k < t.len() - 1 {
                    assert(s[k] == t[k]);
                    assert(s[k + 1] == t[k + 1]);
                } else {
                    assert(s[k] == t.last());
                }
            }
        },
    }
}

proof fn lemma_walk_complete(images: Seq<Image>, id: u128, s: Seq<int>, steps: nat)
    requires
        is_ancestry(images, id, s),
        steps >= s.len() - 1,
    ensures
        chain_walk(images, id, steps) == ChainWalk::Found(s),
    decreases s.len(),
{
    let i = s.last();
    lemma_find_first(images, id, i);
    if s.len() == 1 {
        assert(s =~= seq![i]);
    } else {
        let t = s.drop_last();
        let q = s[s.len() - 2];
        let p = images[q].id;
        assert(is_first_with_id(images, images[s[s.len() - 2]].id, s[s.len() - 2]));
        assert(images[s[s.len() - 1]].parent_id == Some(p));
        assert(t.last() == q);
        assert(t[0] == s[0]);
        assert forall|k: int| 0 <= k < t.len() - 1 implies is_first_with_id(
            images,
            images[#[trigger] t[k]].id,
            t[k],
        ) && images[t[k + 1]].parent_id == Some(images[t[k]].id) by {
            assert(t[k] == s[k] && t[k + 1] == s[k + 1]);
        }
        lemma_walk_complete(images, p, t, (steps - 1) as nat);
        assert(t.push(i) =~= s);
    }
}

/// Completeness: whenever the parent links lead from `image_id` to a base
/// image through no more rows than there are (as they do for every acyclic
/// ancestry whose images are all present), `get_image_chain` finds exactly
/// that chain; it reports neither a missing image nor a cycle.
pub proof fn law_image_chain_complete(images: Seq<Image>, image_id: u128, s: Seq<int>)
    requires
        is_ancestry(images, image_id, s),
        s.len() <= images.len(),
    ensures
        image_chain_walk(images, image_id) == ChainWalk::Found(s),
{
    lemma_walk_complete(images, image_id, s, (images.len() - 1) as nat);
}

proof fn lemma_first_exists(images: Seq<Image>, id: u128, j: int) -> (k: int)
    requires
        0 <= j < images.len(),
        images[j].id == id,
    ensures
        is_first_with_id(images, id, k),
    decreases j,
{
    if exists|l: int| 0 <= l < j && images[l].id == id {
        let l = choose|l: int| 0 <= l < j && images[l].id == id;
        lemma_first_exists(images, id, l)
    } else {
        j
    }
}

/// A missing image is reported only for an id that no row has.
pub proof fn law_image_chain_missing(images: Seq<Image>, id: u128, steps: nat, m: u128)
    requires
        chain_walk(images, id, steps) == ChainWalk::Missing(m),
    ensures
        forall|j: int| 0 <= j < images.len() ==> (#[trigger] images[j]).id != m,
    decreases steps,
{
    match find_image(images, id) {
        None => {
            assert forall|j: int| 0 <= j < images.len() implies (#[trigger] images[j]).id != m by {
                if images[j].id == m {
                    let k = lemma_first_exists(images, id, j);
                }
            }
        },
        Some(i) => {
            assert(is_first_with_id(images, id, i));
            match images[i].parent_id {
                None => {},
                Some(p) => {
                    if steps > 0 {
                        law_image_chain_missing(images, p, (steps - 1) as nat, m);
                    }
                },
            }
        },
    }
}

} // verus!
