//! Panes, and the split tree that holds the panes of a tab.

use vstd::prelude::*;
use vstd::string::*;
use crate::probe::{unix_time_ms, ProbeSnapshot};
use crate::text;
use crate::text::{same_text, trim};
use crate::tmux::{SavedTmuxIdentity, TmuxPaneInfo, TmuxTarget};
use crate::tmux;

verus! {

/// The tmux session behind a pane.
#[derive(Clone, Debug)]
pub struct TmuxBacking {
    pub session_name: String,
    pub target: TmuxTarget,
    /// The generation that this pane may attach to. A restored pane keeps the saved one
    /// whatever a probe finds, so a session of the same name that replaced it is not
    /// taken for it.
    pub expected_generation: Option<SavedTmuxIdentity>,
    pub pane_info: ProbeSnapshot<TmuxPaneInfo>,
}

impl TmuxBacking {
    /// The generation that counts: the expected one, else the one that the last probe
    /// reported, where it reported all of it.
    pub open spec fn generation(self) -> Option<tmux::TmuxIdentityView> {
        match self.expected_generation {
            Some(identity) => Some(identity.deep_view()),
            None => match self.pane_info.value {
                Some(info) => match info.continuity_id {
                    Some(continuity_id) => Some(
                        tmux::TmuxIdentityView {
                            session_id: info.session_id@,
                            session_created: info.session_created,
                            continuity_id: continuity_id@,
                        },
                    ),
                    None => None,
                },
                None => None,
            },
        }
    }

    /// The generation that counts.
    pub fn authoritative_generation(&self) -> (r: Option<SavedTmuxIdentity>)
        ensures
            r.deep_view() == self.generation(),
    {
        match &self.expected_generation {
            Some(identity) => Some(identity.copy_identity()),
            None => match &self.pane_info.value {
                Some(info) => match &info.continuity_id {
                    Some(continuity_id) => Some(
                        SavedTmuxIdentity {
                            session_id: info.session_id.clone(),
                            session_created: info.session_created,
                            continuity_id: continuity_id.clone(),
                        },
                    ),
                    None => None,
                },
                None => None,
            },
        }
    }

    /// Whether both run the same generation of the same session on the same server.
    pub fn same_execution_target(&self, other: &TmuxBacking) -> (r: bool)
        ensures
            r == (self.session_name@ == other.session_name@ && self.target.deep_view()
                == other.target.deep_view() && self.generation() == other.generation()),
    {
        let same_generation = match (
            self.authoritative_generation(),
            other.authoritative_generation(),
        ) {
            (Some(a), Some(b)) => a.same_identity(&b),
            (None, None) => true,
            _ => false,
        };
        same_text(self.session_name.as_str(), other.session_name.as_str())
            && self.target.same_target(&other.target) && same_generation
    }
}

/// How a split divides its area.
#[derive(Clone, Copy, PartialEq, Eq, Debug, Structural)]
pub enum SplitDirection {
    /// One above the other.
    Horizontal,
    /// Side by side.
    Vertical,
}

/// One of the two parts of a split.
#[derive(Clone, Copy, PartialEq, Eq, Debug, Structural)]
pub enum SplitChild {
    First,
    Second,
}

/// Where to look for the next pane.
#[derive(Clone, Copy, PartialEq, Eq, Debug, Structural)]
pub enum PaneNavigationDirection {
    Left,
    Right,
    Up,
    Down,
}

/// A split on the way from the root of a tree to a pane, and the part that the way
/// leads on to.
#[derive(Clone, Copy, PartialEq, Eq, Debug, Structural)]
pub struct PaneSplitPathEntry {
    /// The handle of the split's widget.
    pub widget: u64,
    pub target_child: SplitChild,
}

/// A remote pane without output for this long is idle.
pub const SSH_IDLE_THRESHOLD_MS: u64 = 3000;

/// How many prompt rows a pane keeps.
pub const MAX_COMMAND_MARKS: usize = 1000;

/// Where the shell of a pane is.
#[derive(Clone, Debug, Default)]
pub struct PaneLocationState {
    pub cwd: Option<String>,
    /// The host that reported the directory; none on this machine.
    pub cwd_host: Option<String>,
    pub updated_at_unix_ms: Option<u64>,
}

/// What runs in a pane.
#[derive(Clone, Debug, Default)]
pub struct PaneProcessState {
    /// Whether the pane's shell has a child on this machine. Beyond an SSH client
    /// nothing is known of the commands that run.
    pub has_child_process: bool,
    pub remote_shell: bool,
    pub ssh_command: Option<Vec<String>>,
    pub updated_at_unix_ms: Option<u64>,
}

/// A pane with a live terminal.
pub struct PaneLeaf {
    pub pane_id: u32,
    /// The identity of the pane across restarts; its id may change with them.
    pub work_origin: String,
    /// The handle of the widget that holds the pane.
    pub container: u64,
    /// The handle of the terminal widget.
    pub terminal: u64,
    pub shell_pid: Option<i32>,
    pub was_busy: bool,
    pub launch_command: Option<String>,
    /// When the terminal last showed new output, on the program's own clock.
    pub last_output_ms: Option<u64>,
    pub tmux_backing: Option<TmuxBacking>,
    pub location_state: PaneLocationState,
    pub process_state: PaneProcessState,
    /// The rows at which the shell showed a prompt.
    pub command_marks: Vec<i64>,
}

/// The hexadecimal digit of a number below 16.
pub open spec fn hex_digit(n: int) -> char {
    if n < 10 {
        (48 + n) as char
    } else {
        (87 + n) as char
    }
}

/// The bytes as two hexadecimal digits each.
pub open spec fn hex_text(bytes: Seq<u8>) -> Seq<char> {
    Seq::new(
        bytes.len() * 2,
        |i: int|
            if i % 2 == 0 {
                hex_digit(bytes[i / 2] as int / 16)
            } else {
                hex_digit(bytes[i / 2] as int % 16)
            },
    )
}

/// The work origin made of sixteen bytes.
pub open spec fn origin_text(bytes: Seq<u8>) -> Seq<char> {
    "pane-"@ + hex_text(bytes)
}

pub(crate) fn hex_char(n: u8) -> (r: char)
    requires
        n < 16,
    ensures
        r == hex_digit(n as int),
{
    if n < 10 {
        (48u8 + n) as char
    } else {
        (87u8 + n) as char
    }
}

/// The work origin made of sixteen bytes.
pub fn render_pane_work_origin(bytes: &[u8; 16]) -> (r: String)
    ensures
        r@ == origin_text(bytes@),
{
    let mut rendered = "pane-".to_owned();
    let mut i: usize = 0;
    while i < 16
        invariant
            i <= 16,
            rendered@ == "pane-"@ + hex_text(bytes@).take(2 * i),
        decreases 16 - i,
    {
        let byte: u8 = bytes[i];
        rendered.push(hex_char(byte / 16));
        rendered.push(hex_char(byte % 16));
        i += 1;
        assert(hex_text(bytes@).take(2 * i) =~= hex_text(bytes@).take(2 * i - 2).push(
            hex_digit(byte as int / 16),
        ).push(hex_digit(byte as int % 16)));
    }
    assert(hex_text(bytes@).take(32) =~= hex_text(bytes@));
    rendered
}

/// Two work origins are the same only if they were made of the same bytes.
pub proof fn law_work_origin_shows_every_byte(a: Seq<u8>, b: Seq<u8>)
    requires
        a.len() == b.len(),
        origin_text(a) == origin_text(b),
    ensures
        a == b,
{
    let pre = "pane-"@;
    assert forall|i: int| 0 <= i < a.len() implies a[i] == b[i] by {
        let p = pre.len() as int + 2 * i;
        assert(origin_text(a)[p] == hex_text(a)[2 * i]);
        assert(origin_text(b)[p] == hex_text(b)[2 * i]);
        assert(origin_text(a)[p + 1] == hex_text(a)[2 * i + 1]);
        assert(origin_text(b)[p + 1] == hex_text(b)[2 * i + 1]);
        assert((2 * i + 1) / 2 == i);
    }
    assert(a =~= b);
}

/// Byte `i`, from the lowest, of a number that mixes the clock, the process and a
/// counter.
pub open spec fn fallback_byte(now: u128, pid: u32, counter: u64, i: int) -> u8 {
    ((now ^ ((pid as u128) << 64u128) ^ (counter as u128)) >> ((8 * i) as u128)) as u8
}

/// Sixteen bytes from the clock, the process and a counter, for machines without a
/// source of random bytes.
pub fn fallback_origin_bytes(now_nanos: u128, pid: u32, counter: u64) -> (r: [u8; 16])
    ensures
        forall|i: int| 0 <= i < 16 ==> r@[i] == fallback_byte(now_nanos, pid, counter, i),
{
    let mixed: u128 = now_nanos ^ ((pid as u128) << 64u128) ^ (counter as u128);
    let mut bytes: [u8; 16] = [0u8; 16];
    let mut i: usize = 0;
    while i < 16
        invariant
            i <= 16,
            mixed == now_nanos ^ ((pid as u128) << 64u128) ^ (counter as u128),
            forall|k: int| 0 <= k < i ==> bytes@[k] == fallback_byte(now_nanos, pid, counter, k),
        decreases 16 - i,
    {
        let shift: u128 = 8u128 * (i as u128);
        bytes[i] = #[verifier::truncate] ((mixed >> shift) as u8);
        i += 1;
    }
    bytes
}

/// Sixteen bytes of the system's source of randomness (`getrandom::getrandom`), or
/// nothing where it has none. Nothing is claimed of the bytes.
#[verifier::external_body]
pub(crate) fn random_bytes() -> Option<[u8; 16]> {
    let mut bytes = [0u8; 16];
    match getrandom::getrandom(&mut bytes) {
        Ok(()) => Some(bytes),
        Err(_) => None,
    }
}

/// The work origin from random bytes, or from the clock, the process and a counter
/// where there are none.
pub fn work_origin_from(
    random: Option<[u8; 16]>,
    now_nanos: u128,
    pid: u32,
    counter: u64,
) -> (r: String)
    ensures
        random matches Some(bytes) ==> r@ == origin_text(bytes@),
        random is None ==> r@ == origin_text(
            Seq::new(16, |i: int| fallback_byte(now_nanos, pid, counter, i)),
        ),
{
    match random {
        Some(bytes) => render_pane_work_origin(&bytes),
        None => {
            let bytes = fallback_origin_bytes(now_nanos, pid, counter);
            assert(bytes@ =~= Seq::new(16, |i: int| fallback_byte(now_nanos, pid, counter, i)));
            render_pane_work_origin(&bytes)
        },
    }
}

/// A new work origin: random where the system gives random bytes.
pub fn new_pane_work_origin(now_nanos: u128, pid: u32, counter: u64) -> (r: String)
    ensures
        exists|bytes: Seq<u8>| bytes.len() == 16 && r@ == #[trigger] origin_text(bytes),
{
    let random = random_bytes();
    let ghost bytes = match random {
        Some(bytes) => bytes@,
        None => Seq::new(16, |i: int| fallback_byte(now_nanos, pid, counter, i)),
    };
    let r = work_origin_from(random, now_nanos, pid, counter);
    assert(bytes.len() == 16 && r@ == origin_text(bytes));
    r
}

impl PaneLeaf {
    /// The prompt rows after another prompt at `row`: a repeated row is not added, and
    /// only the last ones are kept.
    pub open spec fn marks_after(self, row: i64) -> Seq<i64> {
        let marks = self.command_marks@;
        let more = marks.push(row);
        if marks.len() > 0 && marks.last() == row {
            marks
        } else if more.len() > MAX_COMMAND_MARKS {
            more.skip(more.len() - MAX_COMMAND_MARKS)
        } else {
            more
        }
    }

    /// Record a prompt at `row`. The terminal may report a prompt again when it draws
    /// it anew, so a repeated row is ignored.
    pub fn push_command_mark(&mut self, row: i64)
        ensures
            final(self).command_marks@ == old(self).marks_after(row),
            *final(self) == (PaneLeaf { command_marks: final(self).command_marks, ..*old(self) }),
            old(self).command_marks@.len() <= MAX_COMMAND_MARKS ==> final(self).command_marks@.len()
                <= MAX_COMMAND_MARKS,
    {
        let len: usize = self.command_marks.len();
        if len > 0 && self.command_marks[len - 1] == row {
            return;
        }
        self.command_marks.push(row);
        let len: usize = self.command_marks.len();
        if len > MAX_COMMAND_MARKS {
            let kept = self.command_marks.split_off(len - MAX_COMMAND_MARKS);
            self.command_marks = kept;
            assert(self.command_marks@ =~= old(self).marks_after(row));
        }
    }

    /// The directory on this machine.
    pub open spec fn local_dir(self) -> Option<Seq<char>> {
        match self.location_state.cwd {
            Some(cwd) => if text::trimmed(cwd@).len() > 0 && self.location_state.cwd_host is None {
                Some(cwd@)
            } else {
                None
            },
            None => None,
        }
    }

    /// The directory on this machine, if the shell reported one that is not blank.
    pub fn local_cwd(&self) -> (r: Option<String>)
        ensures
            r.deep_view() == self.local_dir(),
    {
        match &self.location_state.cwd {
            Some(cwd) => {
                let trimmed = trim(cwd.as_str());
                if !trimmed.as_str().is_empty() && self.location_state.cwd_host.is_none() {
                    Some(cwd.clone())
                } else {
                    None
                }
            },
            None => None,
        }
    }

    /// The directory as it is saved: a `file` URI with the host where a host is known.
    pub open spec fn saved_dir(self) -> Option<Seq<char>> {
        match self.location_state.cwd {
            Some(cwd) => {
                let dir = text::trimmed(cwd@);
                if dir.len() == 0 {
                    None
                } else {
                    match self.location_state.cwd_host {
                        Some(host) => Some("file://"@ + host@ + dir),
                        None => Some(dir),
                    }
                }
            },
            None => None,
        }
    }

    /// The directory as it is saved.
    pub fn saved_cwd(&self) -> (r: Option<String>)
        ensures
            r.deep_view() == self.saved_dir(),
    {
        match &self.location_state.cwd {
            Some(cwd) => {
                let dir = trim(cwd.as_str());
                if dir.as_str().is_empty() {
                    return None;
                }
                match &self.location_state.cwd_host {
                    Some(host) => {
                        let mut uri = "file://".to_owned();
                        uri.append(host.as_str());
                        uri.append(dir.as_str());
                        Some(uri)
                    },
                    None => Some(dir),
                }
            },
            None => None,
        }
    }

    /// The arguments of the SSH client that runs in the pane.
    pub fn ssh_command(&self) -> (r: Option<Vec<String>>)
        ensures
            r.deep_view() == self.process_state.ssh_command.deep_view(),
    {
        match &self.process_state.ssh_command {
            Some(argv) => Some(text::copy_texts(argv)),
            None => None,
        }
    }

    /// The pane once it is known where its shell is at `now`.
    pub open spec fn located(
        self,
        cwd: Option<String>,
        cwd_host: Option<String>,
        now: u64,
    ) -> PaneLeaf {
        PaneLeaf {
            location_state: PaneLocationState { cwd, cwd_host, updated_at_unix_ms: Some(now) },
            ..self
        }
    }

    /// Record where the shell is at `now`.
    pub fn update_location_cache_at(
        &mut self,
        cwd: Option<String>,
        cwd_host: Option<String>,
        now: u64,
    )
        ensures
            *final(self) == old(self).located(cwd, cwd_host, now),
    {
        self.location_state = PaneLocationState { cwd, cwd_host, updated_at_unix_ms: Some(now) };
    }

    /// Record where the shell is, just now.
    pub fn update_location_cache(&mut self, cwd: Option<String>, cwd_host: Option<String>)
        ensures
            exists|now: u64| *final(self) == #[trigger] old(self).located(cwd, cwd_host, now),
    {
        let now: u64 = unix_time_ms();
        self.update_location_cache_at(cwd, cwd_host, now);
    }

    /// Record what runs in the pane.
    pub fn update_process_state(&mut self, process_state: PaneProcessState)
        ensures
            *final(self) == (PaneLeaf { process_state, ..*old(self) }),
    {
        self.process_state = process_state;
    }

    /// The pane once it is known what runs in it at `now`. The SSH arguments are forgotten.
    pub open spec fn probed(
        self,
        has_child_process: bool,
        remote_shell: bool,
        now: u64,
    ) -> PaneLeaf {
        PaneLeaf {
            process_state: PaneProcessState {
                has_child_process,
                remote_shell,
                ssh_command: None,
                updated_at_unix_ms: Some(now),
            },
            ..self
        }
    }

    /// Record whether at `now` the shell has children and is a remote one. The SSH
    /// arguments are forgotten.
    pub fn update_probe_cache_at(&mut self, has_child_process: bool, remote_shell: bool, now: u64)
        ensures
            *final(self) == old(self).probed(has_child_process, remote_shell, now),
    {
        self.process_state = PaneProcessState {
            has_child_process,
            remote_shell,
            ssh_command: None,
            updated_at_unix_ms: Some(now),
        };
    }

    /// Record, just now, whether the shell has children and is a remote one. The SSH
    /// arguments are forgotten.
    pub fn update_probe_cache(&mut self, has_child_process: bool, remote_shell: bool)
        ensures
            exists|now: u64|
                *final(self) == #[trigger] old(self).probed(has_child_process, remote_shell, now),
    {
        let now: u64 = unix_time_ms();
        self.update_probe_cache_at(has_child_process, remote_shell, now);
    }

    /// Whether something runs in the pane at `now_ms`: on this machine a child of the
    /// shell, in a remote shell output within the last seconds.
    pub open spec fn busy(self, now_ms: u64) -> bool {
        if self.process_state.remote_shell {
            self.last_output_ms matches Some(t) && now_ms - t < SSH_IDLE_THRESHOLD_MS
        } else {
            self.process_state.has_child_process
        }
    }

    /// Whether something runs in the pane at `now_ms`.
    pub fn is_busy(&self, now_ms: u64) -> (r: bool)
        ensures
            r == self.busy(now_ms),
    {
        if self.process_state.remote_shell {
            match self.last_output_ms {
                Some(t) => t > now_ms || now_ms - t < SSH_IDLE_THRESHOLD_MS,
                None => false,
            }
        } else {
            self.process_state.has_child_process
        }
    }
}

/// The panes of a tab: a tree of splits.
pub enum PaneNode {
    Leaf(PaneLeaf),
    Split {
        direction: SplitDirection,
        first: Box<PaneNode>,
        second: Box<PaneNode>,
        /// The handle of the split's widget.
        widget: u64,
    },
    /// A pane without a terminal.
    Stub { pane_id: u32 },
    /// A tab without panes.
    Empty,
}

/// A place of a tree where a pane stands.
pub enum PaneSlot {
    Live(PaneLeaf),
    Stub(u32),
}

impl PaneSlot {
    /// The id of the pane that stands there.
    pub open spec fn id(self) -> u32 {
        match self {
            PaneSlot::Live(leaf) => leaf.pane_id,
            PaneSlot::Stub(id) => id,
        }
    }
}

/// The first live pane with this id.
pub open spec fn find_leaf(leaves: Seq<PaneLeaf>, id: u32) -> Option<PaneLeaf>
    decreases leaves.len(),
{
    if leaves.len() == 0 {
        None
    } else if leaves[0].pane_id == id {
        Some(leaves[0])
    } else {
        find_leaf(leaves.skip(1), id)
    }
}

/// The first place whose pane has this id.
pub open spec fn find_slot(slots: Seq<PaneSlot>, id: u32) -> Option<PaneSlot>
    decreases slots.len(),
{
    if slots.len() == 0 {
        None
    } else if slots[0].id() == id {
        Some(slots[0])
    } else {
        find_slot(slots.skip(1), id)
    }
}

/// Whether a pane with this id stands in one of the places.
pub open spec fn has_slot(slots: Seq<PaneSlot>, id: u32) -> bool {
    exists|i: int| 0 <= i < slots.len() && (#[trigger] slots[i]).id() == id
}

proof fn lemma_find_leaf_concat(a: Seq<PaneLeaf>, b: Seq<PaneLeaf>, id: u32)
    ensures
        find_leaf(a + b, id) == match find_leaf(a, id) {
            Some(leaf) => Some(leaf),
            None => find_leaf(b, id),
        },
    decreases a.len(),
{
    if a.len() == 0 {
        assert(a + b =~= b);
    } else {
        assert((a + b).skip(1) =~= a.skip(1) + b);
        lemma_find_leaf_concat(a.skip(1), b, id);
    }
}

proof fn lemma_find_slot(slots: Seq<PaneSlot>, id: u32)
    ensures
        find_slot(slots, id) is Some <==> has_slot(slots, id),
    decreases slots.len(),
{
    if slots.len() > 0 {
        lemma_find_slot(slots.skip(1), id);
        if has_slot(slots.skip(1), id) {
            let i = choose|i: int| 0 <= i < slots.skip(1).len() && (#[trigger] slots.skip(1)[i]).id() == id;
            assert(slots[i + 1].id() == id);
        }
        if has_slot(slots, id) && slots[0].id() != id {
            let i = choose|i: int| 0 <= i < slots.len() && (#[trigger] slots[i]).id() == id;
            assert(slots.skip(1)[i - 1].id() == id);
        }
    }
}

proof fn lemma_find_slot_concat(a: Seq<PaneSlot>, b: Seq<PaneSlot>, id: u32)
    ensures
        find_slot(a + b, id) == match find_slot(a, id) {
            Some(slot) => Some(slot),
            None => find_slot(b, id),
        },
    decreases a.len(),
{
    if a.len() == 0 {
        assert(a + b =~= b);
    } else {
        assert((a + b).skip(1) =~= a.skip(1) + b);
        lemma_find_slot_concat(a.skip(1), b, id);
    }
}

proof fn lemma_has_slot_concat(a: Seq<PaneSlot>, b: Seq<PaneSlot>, id: u32)
    ensures
        has_slot(a + b, id) <==> has_slot(a, id) || has_slot(b, id),
{
    lemma_find_slot(a, id);
    lemma_find_slot(b, id);
    lemma_find_slot(a + b, id);
    lemma_find_slot_concat(a, b, id);
}

/// The process ids of the shells, in the order of the panes.
pub open spec fn pids_of(leaves: Seq<PaneLeaf>) -> Seq<i32>
    decreases leaves.len(),
{
    if leaves.len() == 0 {
        Seq::empty()
    } else {
        match leaves[0].shell_pid {
            Some(pid) => seq![pid] + pids_of(leaves.skip(1)),
            None => pids_of(leaves.skip(1)),
        }
    }
}

proof fn lemma_pids_concat(a: Seq<PaneLeaf>, b: Seq<PaneLeaf>)
    ensures
        pids_of(a + b) == pids_of(a) + pids_of(b),
    decreases a.len(),
{
    if a.len() == 0 {
        assert(a + b =~= b);
        assert(pids_of(a) + pids_of(b) =~= pids_of(b));
    } else {
        assert((a + b).skip(1) =~= a.skip(1) + b);
        lemma_pids_concat(a.skip(1), b);
        if let Some(pid) = a[0].shell_pid {
            assert(seq![pid] + (pids_of(a.skip(1)) + pids_of(b)) =~= (seq![pid] + pids_of(a.skip(1)))
                + pids_of(b));
        }
    }
}

impl PaneNode {
    /// The live panes, from left to right.
    pub open spec fn live(self) -> Seq<PaneLeaf>
        decreases self,
    {
        match self {
            PaneNode::Leaf(leaf) => seq![leaf],
            PaneNode::Split { first, second, .. } => first.live() + second.live(),
            PaneNode::Stub { .. } | PaneNode::Empty => Seq::empty(),
        }
    }

    /// All panes, from left to right.
    pub open spec fn slots(self) -> Seq<PaneSlot>
        decreases self,
    {
        match self {
            PaneNode::Leaf(leaf) => seq![PaneSlot::Live(leaf)],
            PaneNode::Split { first, second, .. } => first.slots() + second.slots(),
            PaneNode::Stub { pane_id } => seq![PaneSlot::Stub(pane_id)],
            PaneNode::Empty => Seq::empty(),
        }
    }

    /// Whether both trees have the same splits around the same number of panes.
    pub open spec fn same_shape(self, other: PaneNode) -> bool
        decreases self,
    {
        match (self, other) {
            (PaneNode::Leaf(_), PaneNode::Leaf(_)) => true,
            (
                PaneNode::Split { direction, first, second, widget },
                PaneNode::Split { direction: d2, first: f2, second: s2, widget: w2 },
            ) => direction == d2 && widget == w2 && first.same_shape(*f2) && second.same_shape(*s2),
            (PaneNode::Stub { pane_id }, PaneNode::Stub { pane_id: other_id }) => pane_id == other_id,
            (PaneNode::Empty, PaneNode::Empty) => true,
            _ => false,
        }
    }

    /// The process ids of the shells, from left to right.
    pub fn collect_pids(&self) -> (r: Vec<i32>)
        ensures
            r@ == pids_of(self.live()),
        decreases self,
    {
        match self {
            PaneNode::Leaf(leaf) => {
                let mut pids: Vec<i32> = Vec::new();
                assert(self.live().skip(1) =~= Seq::empty());
                reveal_with_fuel(pids_of, 2);
                if let Some(pid) = leaf.shell_pid {
                    pids.push(pid);
                }
                assert(pids@ =~= pids_of(self.live()));
                pids
            },
            PaneNode::Split { first, second, .. } => {
                let mut pids = first.collect_pids();
                let mut more = second.collect_pids();
                pids.append(&mut more);
                proof {
                    lemma_pids_concat(first.live(), second.live());
                }
                pids
            },
            PaneNode::Stub { .. } | PaneNode::Empty => Vec::new(),
        }
    }

    /// The handle of the terminal of the pane with this id. A pane without a terminal
    /// has none; where no pane has the id, the first live pane stands in for it.
    pub fn focused_terminal(&self, pane_id: u32) -> (r: Option<u64>)
        ensures
            r == match find_slot(self.slots(), pane_id) {
                Some(PaneSlot::Live(leaf)) => Some(leaf.terminal),
                Some(PaneSlot::Stub(_)) => None,
                None => if self.live().len() > 0 {
                    Some(self.live()[0].terminal)
                } else {
                    None
                },
            },
        decreases self,
    {
        match self {
            PaneNode::Leaf(leaf) => {
                assert(self.slots().skip(1) =~= Seq::empty());
                reveal_with_fuel(find_slot, 2);
                Some(leaf.terminal)
            },
            PaneNode::Split { first, second, .. } => {
                proof {
                    lemma_find_slot_concat(first.slots(), second.slots(), pane_id);
                    lemma_find_slot(first.slots(), pane_id);
                    lemma_find_slot(second.slots(), pane_id);
                }
                if first.contains_pane(pane_id) {
                    first.focused_terminal(pane_id)
                } else if second.contains_pane(pane_id) {
                    second.focused_terminal(pane_id)
                } else {
                    match self.first_leaf() {
                        Some(leaf) => Some(leaf.terminal),
                        None => None,
                    }
                }
            },
            PaneNode::Stub { .. } => {
                assert(self.slots().skip(1) =~= Seq::empty());
                reveal_with_fuel(find_slot, 2);
                None
            },
            PaneNode::Empty => None,
        }
    }

    /// The first live pane with this id.
    pub fn leaf(&self, pane_id: u32) -> (r: Option<&PaneLeaf>)
        ensures
            r is Some <==> find_leaf(self.live(), pane_id) is Some,
            r matches Some(leaf) ==> find_leaf(self.live(), pane_id) == Some(*leaf),
        decreases self,
    {
        match self {
            PaneNode::Leaf(leaf) => {
                assert(self.live().skip(1) =~= Seq::empty());
                reveal_with_fuel(find_leaf, 2);
                if leaf.pane_id == pane_id {
                    Some(leaf)
                } else {
                    None
                }
            },
            PaneNode::Split { first, second, .. } => {
                proof {
                    lemma_find_leaf_concat(first.live(), second.live(), pane_id);
                }
                match first.leaf(pane_id) {
                    Some(leaf) => Some(leaf),
                    None => second.leaf(pane_id),
                }
            },
            PaneNode::Stub { .. } | PaneNode::Empty => None,
        }
    }

    /// The live panes, from left to right.
    pub fn leaves(&self) -> (r: Vec<&PaneLeaf>)
        ensures
            r@.len() == self.live().len(),
            forall|i: int| 0 <= i < r@.len() ==> *(#[trigger] r@[i]) == self.live()[i],
        decreases self,
    {
        match self {
            PaneNode::Leaf(leaf) => {
                let mut leaves: Vec<&PaneLeaf> = Vec::new();
                leaves.push(leaf);
                leaves
            },
            PaneNode::Split { first, second, .. } => {
                let mut leaves = first.leaves();
                let mut more = second.leaves();
                leaves.append(&mut more);
                leaves
            },
            PaneNode::Stub { .. } | PaneNode::Empty => Vec::new(),
        }
    }

    /// Whether something runs in one of the panes at `now_ms`.
    pub fn any_busy(&self, now_ms: u64) -> (r: bool)
        ensures
            r == exists|i: int| 0 <= i < self.live().len() && (#[trigger] self.live()[i]).busy(now_ms),
        decreases self,
    {
        let leaves = self.leaves();
        let mut i: usize = 0;
        while i < leaves.len()
            invariant
                leaves@.len() == self.live().len(),
                forall|k: int| 0 <= k < leaves@.len() ==> *(#[trigger] leaves@[k]) == self.live()[k],
                i <= leaves@.len(),
                forall|k: int| 0 <= k < i ==> !(#[trigger] self.live()[k]).busy(now_ms),
            decreases leaves@.len() - i,
        {
            if leaves[i].is_busy(now_ms) {
                assert(self.live()[i as int].busy(now_ms));
                return true;
            }
            i += 1;
        }
        false
    }

    /// Whether one of the panes runs a remote shell.
    pub fn any_remote_shell(&self) -> (r: bool)
        ensures
            r == exists|i: int|
                0 <= i < self.live().len() && (#[trigger] self.live()[i]).process_state.remote_shell,
    {
        let leaves = self.leaves();
        let mut i: usize = 0;
        while i < leaves.len()
            invariant
                leaves@.len() == self.live().len(),
                forall|k: int| 0 <= k < leaves@.len() ==> *(#[trigger] leaves@[k]) == self.live()[k],
                i <= leaves@.len(),
                forall|k: int| 0 <= k < i ==> !(#[trigger] self.live()[k]).process_state.remote_shell,
            decreases leaves@.len() - i,
        {
            if leaves[i].process_state.remote_shell {
                assert(self.live()[i as int].process_state.remote_shell);
                return true;
            }
            i += 1;
        }
        false
    }

    /// Whether the live pane with this id runs a remote shell.
    pub fn pane_is_remote_shell(&self, pane_id: u32) -> (r: bool)
        ensures
            r == (find_leaf(self.live(), pane_id) matches Some(leaf)
                && leaf.process_state.remote_shell),
    {
        match self.leaf(pane_id) {
            Some(leaf) => leaf.process_state.remote_shell,
            None => false,
        }
    }

    /// Note for each live pane whether something runs in it at `now_ms`. The result says
    /// whether one of them went idle since the last time.
    pub fn update_busy_transitions(&mut self, now_ms: u64) -> (r: bool)
        ensures
            old(self).same_shape(*final(self)),
            final(self).live().len() == old(self).live().len(),
            forall|i: int|
                0 <= i < final(self).live().len() ==> #[trigger] final(self).live()[i] == (PaneLeaf {
                    was_busy: old(self).live()[i].busy(now_ms),
                    ..old(self).live()[i]
                }),
            r == exists|i: int|
                0 <= i < old(self).live().len() && (#[trigger] old(self).live()[i]).was_busy
                    && !old(self).live()[i].busy(now_ms),
        decreases *old(self),
    {
        match self {
            PaneNode::Leaf(leaf) => {
                let busy = leaf.is_busy(now_ms);
                let went_idle = leaf.was_busy && !busy;
                leaf.was_busy = busy;
                assert(old(self).live()[0].was_busy || !went_idle);
                went_idle
            },
            PaneNode::Split { first, second, .. } => {
                let ghost a = first.live();
                let ghost b = second.live();
                let in_first = first.update_busy_transitions(now_ms);
                let in_second = second.update_busy_transitions(now_ms);
                proof {
                    let all = a + b;
                    if in_first {
                        let i = choose|i: int| 0 <= i < a.len() && (#[trigger] a[i]).was_busy && !a[i].busy(now_ms);
                        assert(all[i].was_busy);
                    }
                    if in_second {
                        let i = choose|i: int| 0 <= i < b.len() && (#[trigger] b[i]).was_busy && !b[i].busy(now_ms);
                        assert(all[a.len() + i].was_busy);
                    }
                    if exists|i: int| 0 <= i < all.len() && (#[trigger] all[i]).was_busy && !all[i].busy(now_ms) {
                        let i = choose|i: int| 0 <= i < all.len() && (#[trigger] all[i]).was_busy && !all[i].busy(now_ms);
                        if i < a.len() {
                            assert(a[i].was_busy);
                        } else {
                            assert(b[i - a.len()].was_busy);
                        }
                    }
                }
                in_first || in_second
            },
            PaneNode::Stub { .. } | PaneNode::Empty => false,
        }
    }

    /// Whether the root is a split.
    pub fn is_split(&self) -> (r: bool)
        ensures
            r == (self is Split),
    {
        match self {
            PaneNode::Split { .. } => true,
            _ => false,
        }
    }

    /// The number of panes.
    pub fn leaf_count(&self) -> (r: usize)
        requires
            self.slots().len() <= usize::MAX,
        ensures
            r == self.slots().len(),
        decreases self,
    {
        match self {
            PaneNode::Leaf(_) => 1,
            PaneNode::Split { first, second, .. } => first.leaf_count() + second.leaf_count(),
            PaneNode::Stub { .. } => 1,
            PaneNode::Empty => 0,
        }
    }

    /// The first live pane. Tabs without terminals have none.
    pub fn first_leaf(&self) -> (r: Option<&PaneLeaf>)
        ensures
            r is Some <==> self.live().len() > 0,
            r matches Some(leaf) ==> *leaf == self.live()[0],
        decreases self,
    {
        match self {
            PaneNode::Leaf(leaf) => Some(leaf),
            PaneNode::Split { first, second, .. } => match first.first_leaf() {
                Some(leaf) => Some(leaf),
                None => second.first_leaf(),
            },
            PaneNode::Stub { .. } | PaneNode::Empty => None,
        }
    }

    /// Whether a pane of the tree has this id.
    pub fn contains_pane(&self, pane_id: u32) -> (r: bool)
        ensures
            r == has_slot(self.slots(), pane_id),
        decreases self,
    {
        match self {
            PaneNode::Leaf(leaf) => {
                assert(self.slots()[0].id() == leaf.pane_id);
                leaf.pane_id == pane_id
            },
            PaneNode::Split { first, second, .. } => {
                proof {
                    lemma_has_slot_concat(first.slots(), second.slots(), pane_id);
                }
                first.contains_pane(pane_id) || second.contains_pane(pane_id)
            },
            PaneNode::Stub { pane_id: id } => {
                assert(self.slots()[0].id() == *id);
                *id == pane_id
            },
            PaneNode::Empty => false,
        }
    }

    /// The handle of the widget of the whole tree. Panes without terminals have none.
    pub fn root_widget(&self) -> (r: Option<u64>)
        ensures
            r == match *self {
                PaneNode::Leaf(leaf) => Some(leaf.container),
                PaneNode::Split { widget, .. } => Some(widget),
                PaneNode::Stub { .. } | PaneNode::Empty => None,
            },
    {
        match self {
            PaneNode::Leaf(leaf) => Some(leaf.container),
            PaneNode::Split { widget, .. } => Some(*widget),
            PaneNode::Stub { .. } | PaneNode::Empty => None,
        }
    }

    /// The tree below this one that `path` leads to: at each step the root is the split
    /// with the step's widget, and the way goes on in the step's part.
    pub open spec fn follow(self, path: Seq<PaneSplitPathEntry>) -> Option<PaneNode>
        decreases path.len(),
    {
        if path.len() == 0 {
            Some(self)
        } else {
            match self {
                PaneNode::Split { first, second, widget, .. } => if widget != path[0].widget {
                    None
                } else if path[0].target_child == SplitChild::First {
                    first.follow(path.skip(1))
                } else {
                    second.follow(path.skip(1))
                },
                _ => None,
            }
        }
    }

    /// The splits on the way to the first pane with this id, from the root to the
    /// direct parent; there is no way where no pane has the id.
    pub open spec fn way_to(self, pane_id: u32) -> Option<Seq<PaneSplitPathEntry>>
        decreases self,
    {
        if !has_slot(self.slots(), pane_id) {
            None
        } else {
            match self {
                PaneNode::Split { first, second, widget, .. } => if has_slot(first.slots(), pane_id) {
                    Some(
                        seq![PaneSplitPathEntry { widget, target_child: SplitChild::First }]
                            + first.way_to(pane_id)->0,
                    )
                } else {
                    Some(
                        seq![PaneSplitPathEntry { widget, target_child: SplitChild::Second }]
                            + second.way_to(pane_id)->0,
                    )
                },
                _ => Some(Seq::empty()),
            }
        }
    }

    /// The splits on the way from the root to the pane with this id, from the root to
    /// its direct parent.
    pub fn split_path_to(&self, pane_id: u32) -> (r: Option<Vec<PaneSplitPathEntry>>)
        ensures
            r is Some <==> self.way_to(pane_id) is Some,
            r matches Some(path) ==> self.way_to(pane_id) == Some(path@),
    {
        let mut path: Vec<PaneSplitPathEntry> = Vec::new();
        if self.collect_split_path(pane_id, &mut path) {
            assert(Seq::<PaneSplitPathEntry>::empty() + self.way_to(pane_id)->0 =~= self.way_to(
                pane_id,
            )->0);
            Some(path)
        } else {
            None
        }
    }

    fn collect_split_path(&self, pane_id: u32, path: &mut Vec<PaneSplitPathEntry>) -> (r: bool)
        ensures
            r == (self.way_to(pane_id) is Some),
            r ==> final(path)@ == old(path)@ + self.way_to(pane_id)->0,
        decreases self,
    {
        if !self.contains_pane(pane_id) {
            return false;
        }
        match self {
            PaneNode::Split { first, second, widget, .. } => {
                proof {
                    lemma_has_slot_concat(first.slots(), second.slots(), pane_id);
                }
                if first.contains_pane(pane_id) {
                    path.push(PaneSplitPathEntry { widget: *widget, target_child: SplitChild::First });
                    let found = first.collect_split_path(pane_id, path);
                    assert(path@ =~= old(path)@ + self.way_to(pane_id)->0);
                    found
                } else {
                    path.push(PaneSplitPathEntry { widget: *widget, target_child: SplitChild::Second });
                    let found = second.collect_split_path(pane_id, path);
                    assert(path@ =~= old(path)@ + self.way_to(pane_id)->0);
                    found
                }
            },
            _ => true,
        }
    }
}

/// The way to a pane leads to it: following the splits of the path from the root ends
/// at the pane itself.
pub proof fn law_split_path_leads_to_the_pane(tree: PaneNode, pane_id: u32)
    requires
        tree.way_to(pane_id) is Some,
    ensures
        tree.follow(tree.way_to(pane_id)->0) matches Some(node) && !(node is Split)
            && node.slots().len() == 1 && node.slots()[0].id() == pane_id,
    decreases tree,
{
    match tree {
        PaneNode::Split { first, second, .. } => {
            lemma_has_slot_concat(first.slots(), second.slots(), pane_id);
            let path = tree.way_to(pane_id)->0;
            if has_slot(first.slots(), pane_id) {
                law_split_path_leads_to_the_pane(*first, pane_id);
                assert(path.skip(1) =~= first.way_to(pane_id)->0);
            } else {
                law_split_path_leads_to_the_pane(*second, pane_id);
                assert(path.skip(1) =~= second.way_to(pane_id)->0);
            }
        },
        _ => {},
    }
}

/// There is a way to exactly the panes of the tree.
pub proof fn law_split_path_exists_for_panes(tree: PaneNode, pane_id: u32)
    ensures
        tree.way_to(pane_id) is Some <==> has_slot(tree.slots(), pane_id),
{
}

/// Every live pane has a place in the tree, in the same order; places without a terminal
/// are the only others.
pub proof fn law_live_panes_have_places(tree: PaneNode)
    ensures
        tree.live().len() <= tree.slots().len(),
        forall|i: int|
            0 <= i < tree.live().len() ==> has_slot(tree.slots(), (#[trigger] tree.live()[i]).pane_id),
    decreases tree,
{
    match tree {
        PaneNode::Leaf(leaf) => {
            assert(tree.slots()[0].id() == leaf.pane_id);
        },
        PaneNode::Split { first, second, .. } => {
            law_live_panes_have_places(*first);
            law_live_panes_have_places(*second);
            assert forall|i: int| 0 <= i < tree.live().len() implies has_slot(
                tree.slots(),
                (#[trigger] tree.live()[i]).pane_id,
            ) by {
                let id = tree.live()[i].pane_id;
                lemma_has_slot_concat(first.slots(), second.slots(), id);
                if i < first.live().len() {
                    assert(first.live()[i].pane_id == id);
                } else {
                    assert(second.live()[i - first.live().len()].pane_id == id);
                }
            }
        },
        _ => {},
    }
}

/// The position of the first live pane with this id; the number of panes where there is
/// none.
pub open spec fn leaf_index(leaves: Seq<PaneLeaf>, id: u32) -> nat
    decreases leaves.len(),
{
    if leaves.len() == 0 || leaves[0].pane_id == id {
        0
    } else {
        1 + leaf_index(leaves.skip(1), id)
    }
}

proof fn lemma_leaf_index(leaves: Seq<PaneLeaf>, id: u32)
    ensures
        leaf_index(leaves, id) <= leaves.len(),
        find_leaf(leaves, id) is None <==> leaf_index(leaves, id) == leaves.len(),
        find_leaf(leaves, id) matches Some(leaf) ==> leaves[leaf_index(leaves, id) as int] == leaf,
    decreases leaves.len(),
{
    if leaves.len() > 0 {
        lemma_leaf_index(leaves.skip(1), id);
    }
}

proof fn lemma_leaf_index_concat(a: Seq<PaneLeaf>, b: Seq<PaneLeaf>, id: u32)
    ensures
        find_leaf(a, id) is Some ==> leaf_index(a + b, id) == leaf_index(a, id),
        find_leaf(a, id) is None ==> leaf_index(a + b, id) == a.len() + leaf_index(b, id),
    decreases a.len(),
{
    if a.len() == 0 {
        assert(a + b =~= b);
    } else {
        assert((a + b).skip(1) =~= a.skip(1) + b);
        lemma_leaf_index_concat(a.skip(1), b, id);
    }
}

proof fn lemma_same_shape_reflexive(tree: PaneNode)
    ensures
        tree.same_shape(tree),
    decreases tree,
{
    if let PaneNode::Split { first, second, .. } = tree {
        lemma_same_shape_reflexive(*first);
        lemma_same_shape_reflexive(*second);
    }
}

impl PaneNode {
    /// The first live pane with this id, to be changed in place: what becomes of it stands
    /// in the tree afterwards, and nothing else of the tree changes.
    pub fn leaf_mut(&mut self, pane_id: u32) -> (r: Option<&mut PaneLeaf>)
        ensures
            r is Some <==> find_leaf(old(self).live(), pane_id) is Some,
            r matches Some(leaf) ==> {
                &&& find_leaf(old(self).live(), pane_id) == Some(*leaf)
                &&& old(self).same_shape(*final(self))
                &&& final(self).live() == old(self).live().update(
                    leaf_index(old(self).live(), pane_id) as int,
                    *final(leaf),
                )
            },
            r is None ==> *final(self) == *old(self),
        decreases *old(self),
    {
        match self {
            PaneNode::Leaf(leaf) => {
                assert(old(self).live().skip(1) =~= Seq::empty());
                reveal_with_fuel(find_leaf, 2);
                reveal_with_fuel(leaf_index, 2);
                if leaf.pane_id == pane_id {
                    Some(leaf)
                } else {
                    None
                }
            },
            PaneNode::Split { first, second, .. } => {
                proof {
                    lemma_find_leaf_concat(first.live(), second.live(), pane_id);
                    lemma_leaf_index_concat(first.live(), second.live(), pane_id);
                    lemma_leaf_index(first.live(), pane_id);
                    lemma_leaf_index(second.live(), pane_id);
                    lemma_same_shape_reflexive(**first);
                    lemma_same_shape_reflexive(**second);
                }
                if first.leaf(pane_id).is_some() {
                    first.leaf_mut(pane_id)
                } else {
                    second.leaf_mut(pane_id)
                }
            },
            PaneNode::Stub { .. } | PaneNode::Empty => None,
        }
    }
}

impl PaneNode {
    /// The live panes, from left to right, to be changed in place: what becomes of each
    /// stands in the tree afterwards, and nothing else of the tree changes.
    pub fn leaves_mut(&mut self) -> (r: Vec<&mut PaneLeaf>)
        ensures
            r@.len() == old(self).live().len(),
            forall|i: int| 0 <= i < r@.len() ==> *(#[trigger] r@[i]) == old(self).live()[i],
            old(self).same_shape(*final(self)),
            final(self).live() == Seq::new(r@.len(), |i: int| *final(r@[i])),
        decreases *old(self),
    {
        match self {
            PaneNode::Leaf(leaf) => {
                let mut leaves: Vec<&mut PaneLeaf> = Vec::new();
                leaves.push(leaf);
                leaves
            },
            PaneNode::Split { first, second, .. } => {
                let mut leaves = first.leaves_mut();
                let mut more = second.leaves_mut();
                leaves.append(&mut more);
                leaves
            },
            PaneNode::Stub { .. } | PaneNode::Empty => Vec::new(),
        }
    }
}

/// A pane in the direction of navigation, with the measures by which panes are compared:
/// how far it is in that direction, how far apart the two are across it, and how far
/// apart their centers are across it. A larger distance has a larger measure.
#[derive(Clone, Copy, Debug, PartialEq, Eq, Structural)]
pub struct AdjacentPane {
    pub pane_id: u32,
    pub primary_gap: u64,
    pub perpendicular_gap: u64,
    pub perpendicular_distance: u64,
}

impl AdjacentPane {
    /// Whether this pane comes before the other: by the gap in the direction, by the gap
    /// across it, by the distance of the centers, and by the id.
    pub open spec fn nearer(self, other: AdjacentPane) -> bool {
        ||| self.primary_gap < other.primary_gap
        ||| {
            &&& self.primary_gap == other.primary_gap
            &&& {
                ||| self.perpendicular_gap < other.perpendicular_gap
                ||| {
                    &&& self.perpendicular_gap == other.perpendicular_gap
                    &&& {
                        ||| self.perpendicular_distance < other.perpendicular_distance
                        ||| self.perpendicular_distance == other.perpendicular_distance && self.pane_id
                            < other.pane_id
                    }
                }
            }
        }
    }

    fn is_nearer(&self, other: &AdjacentPane) -> (r: bool)
        ensures
            r == self.nearer(*other),
    {
        if self.primary_gap != other.primary_gap {
            self.primary_gap < other.primary_gap
        } else if self.perpendicular_gap != other.perpendicular_gap {
            self.perpendicular_gap < other.perpendicular_gap
        } else if self.perpendicular_distance != other.perpendicular_distance {
            self.perpendicular_distance < other.perpendicular_distance
        } else {
            self.pane_id < other.pane_id
        }
    }
}

/// The nearest of the panes that lie in the direction of navigation; none where no pane
/// lies there.
pub fn nearest_pane(candidates: &Vec<AdjacentPane>) -> (r: Option<u32>)
    ensures
        r is None <==> candidates@.len() == 0,
        r matches Some(id) ==> exists|i: int|
            0 <= i < candidates@.len() && (#[trigger] candidates@[i]).pane_id == id && forall|j: int|
                0 <= j < candidates@.len() ==> !(#[trigger] candidates@[j]).nearer(candidates@[i]),
{
    if candidates.len() == 0 {
        return None;
    }
    let mut best: usize = 0;
    let mut i: usize = 1;
    while i < candidates.len()
        invariant
            best < i <= candidates@.len(),
            forall|j: int| 0 <= j < i ==> !(#[trigger] candidates@[j]).nearer(candidates@[best as int]),
        decreases candidates@.len() - i,
    {
        if candidates[i].is_nearer(&candidates[best]) {
            best = i;
        }
        i += 1;
    }
    let id: u32 = candidates[best].pane_id;
    assert(candidates@[best as int].pane_id == id);
    Some(id)
}

/// The first pane with an id is found.
pub proof fn lemma_first_with_id(leaves: Seq<PaneLeaf>, id: u32, i: int)
    requires
        0 <= i < leaves.len(),
        leaves[i].pane_id == id,
        forall|j: int| 0 <= j < i ==> (#[trigger] leaves[j]).pane_id != id,
    ensures
        find_leaf(leaves, id) == Some(leaves[i]),
        leaf_index(leaves, id) == i,
    decreases leaves.len(),
{
    if i > 0 {
        let rest = leaves.skip(1);
        assert(leaves[0].pane_id != id);
        assert(rest[i - 1] == leaves[i]);
        assert forall|j: int| 0 <= j < i - 1 implies (#[trigger] rest[j]).pane_id != id by {
            assert(rest[j] == leaves[j + 1]);
        }
        lemma_first_with_id(rest, id, i - 1);
    }
}

/// A pane is found by its id, and only by it.
pub proof fn law_panes_are_found_by_id(leaves: Seq<PaneLeaf>, id: u32)
    ensures
        find_leaf(leaves, id) matches Some(leaf) ==> leaf.pane_id == id && leaves.contains(leaf),
        find_leaf(leaves, id) is None <==> forall|i: int|
            0 <= i < leaves.len() ==> (#[trigger] leaves[i]).pane_id != id,
    decreases leaves.len(),
{
    if leaves.len() > 0 {
        let rest = leaves.skip(1);
        law_panes_are_found_by_id(rest, id);
        if leaves[0].pane_id == id {
            assert(leaves.contains(leaves[0]));
        } else {
            if let Some(leaf) = find_leaf(rest, id) {
                let i = choose|i: int| 0 <= i < rest.len() && rest[i] == leaf;
                assert(leaves[i + 1] == leaf);
            }
            if find_leaf(leaves, id) is None {
                assert forall|i: int| 0 <= i < leaves.len() implies (#[trigger] leaves[i]).pane_id
                    != id by {
                    if i > 0 {
                        assert(rest[i - 1] == leaves[i]);
                    }
                }
            }
            if forall|i: int| 0 <= i < leaves.len() ==> (#[trigger] leaves[i]).pane_id != id {
                assert forall|i: int| 0 <= i < rest.len() implies (#[trigger] rest[i]).pane_id
                    != id by {
                    assert(rest[i] == leaves[i + 1]);
                }
            }
        }
    }
}

/// A tree is read from the first child to the second: a split shows the panes of both, and
/// a tab without panes none. A place without a terminal counts as a place, not as a pane.
pub proof fn law_trees_are_read_in_order(
    leaf: PaneLeaf,
    direction: SplitDirection,
    first: PaneNode,
    second: PaneNode,
    widget: u64,
    id: u32,
)
    ensures
        (PaneNode::Leaf(leaf)).live() == seq![leaf],
        (PaneNode::Leaf(leaf)).slots() == seq![PaneSlot::Live(leaf)],
        (PaneNode::Stub { pane_id: id }).live() == Seq::<PaneLeaf>::empty(),
        (PaneNode::Stub { pane_id: id }).slots() == seq![PaneSlot::Stub(id)],
        PaneNode::Empty.live() == Seq::<PaneLeaf>::empty(),
        PaneNode::Empty.slots() == Seq::<PaneSlot>::empty(),
        (PaneNode::Split { direction, first: Box::new(first), second: Box::new(second), widget }).live()
            == first.live() + second.live(),
        (PaneNode::Split {
            direction,
            first: Box::new(first),
            second: Box::new(second),
            widget,
        }).slots() == first.slots() + second.slots(),
        PaneSlot::Live(leaf).id() == leaf.pane_id,
        PaneSlot::Stub(id).id() == id,
{
}

/// The processes of panes are those of the shells that run, in the order of the panes.
pub proof fn law_processes_of_panes(leaf: PaneLeaf, a: Seq<PaneLeaf>, b: Seq<PaneLeaf>)
    ensures
        leaf.shell_pid matches Some(pid) ==> pids_of(seq![leaf]) == seq![pid],
        leaf.shell_pid is None ==> pids_of(seq![leaf]) == Seq::<i32>::empty(),
        pids_of(a + b) == pids_of(a) + pids_of(b),
{
    lemma_pids_concat(a, b);
    assert(seq![leaf].skip(1) =~= Seq::<PaneLeaf>::empty());
    assert(pids_of(Seq::<PaneLeaf>::empty()) =~= Seq::<i32>::empty());
    if let Some(pid) = leaf.shell_pid {
        assert(pids_of(seq![leaf]) =~= seq![pid]);
    }
}

/// Prompts are remembered in their order, the newest last, a thousand at most; a prompt that
/// is reported again at its row is not added.
pub proof fn law_prompt_rows(leaf: PaneLeaf, row: i64)
    requires
        leaf.command_marks@.len() <= 1000,
    ensures
        leaf.marks_after(row).len() > 0,
        leaf.marks_after(row).last() == row,
        leaf.marks_after(row).len() <= 1000,
        leaf.command_marks@.len() > 0 && leaf.command_marks@.last() == row ==> leaf.marks_after(row)
            == leaf.command_marks@,
        leaf.command_marks@.len() == 0 || leaf.command_marks@.last() != row ==> {
            &&& leaf.command_marks@.len() < 1000 ==> leaf.marks_after(row)
                == leaf.command_marks@.push(row)
            &&& leaf.command_marks@.len() == 1000 ==> leaf.marks_after(row)
                == leaf.command_marks@.skip(1).push(row)
        },
{
    let more = leaf.command_marks@.push(row);
    if leaf.command_marks@.len() == 1000 {
        assert(more.skip(1) =~= leaf.command_marks@.skip(1).push(row));
    }
}

/// A directory of this machine is one that no host reported. What is saved of a directory
/// that a host reported names the host; blank directories are not saved.
pub proof fn law_directories_of_panes(leaf: PaneLeaf)
    ensures
        leaf.location_state.cwd is None ==> leaf.local_dir() is None && leaf.saved_dir() is None,
        leaf.location_state.cwd_host is Some ==> leaf.local_dir() is None,
        leaf.location_state.cwd matches Some(cwd) && text::trimmed(cwd@).len() == 0
            ==> leaf.local_dir() is None && leaf.saved_dir() is None,
        leaf.location_state.cwd matches Some(cwd) && text::trimmed(cwd@).len() > 0
            && leaf.location_state.cwd_host is None ==> leaf.local_dir() == Some(
            leaf.location_state.cwd->0@,
        ) && leaf.saved_dir() == Some(text::trimmed(leaf.location_state.cwd->0@)),
        leaf.location_state.cwd matches Some(cwd) && text::trimmed(cwd@).len() > 0 && (
        leaf.location_state.cwd_host matches Some(host)) ==> leaf.saved_dir() == Some(
            "file://"@ + leaf.location_state.cwd_host->0@ + text::trimmed(
                leaf.location_state.cwd->0@,
            ),
        ),
{
}

/// What is recorded of a pane is what was observed, at the time of the observation; nothing
/// else of the pane changes.
pub proof fn law_observations_are_recorded(
    leaf: PaneLeaf,
    cwd: Option<String>,
    host: Option<String>,
    child: bool,
    remote: bool,
    now: u64,
)
    ensures
        leaf.located(cwd, host, now).location_state.cwd == cwd,
        leaf.located(cwd, host, now).location_state.cwd_host == host,
        leaf.located(cwd, host, now).location_state.updated_at_unix_ms == Some(now),
        leaf.located(cwd, host, now) == (PaneLeaf {
            location_state: leaf.located(cwd, host, now).location_state,
            ..leaf
        }),
        leaf.probed(child, remote, now).process_state.has_child_process == child,
        leaf.probed(child, remote, now).process_state.remote_shell == remote,
        leaf.probed(child, remote, now).process_state.ssh_command is None,
        leaf.probed(child, remote, now).process_state.updated_at_unix_ms == Some(now),
        leaf.probed(child, remote, now) == (PaneLeaf {
            process_state: leaf.probed(child, remote, now).process_state,
            ..leaf
        }),
{
}

/// A pane of this machine is busy while its shell has a child; a remote one for three
/// seconds after its last output.
pub proof fn law_busy_panes(leaf: PaneLeaf, now: u64)
    ensures
        !leaf.process_state.remote_shell ==> leaf.busy(now) == leaf.process_state.has_child_process,
        leaf.process_state.remote_shell && leaf.last_output_ms is None ==> !leaf.busy(now),
        leaf.process_state.remote_shell && (leaf.last_output_ms matches Some(t) && now >= t + 3000)
            ==> !leaf.busy(now),
        leaf.process_state.remote_shell && (leaf.last_output_ms matches Some(t) && now < t + 3000)
            ==> leaf.busy(now),
{
}

/// The generation that a pane may attach to is the expected one, whatever a probe finds;
/// without one it is that of the last probe, where the probe reported all of it.
pub proof fn law_the_expected_generation_counts(backing: TmuxBacking)
    ensures
        backing.expected_generation matches Some(identity) ==> backing.generation() == Some(
            identity.deep_view(),
        ),
        backing.expected_generation is None && backing.pane_info.value is None
            ==> backing.generation() is None,
        backing.expected_generation is None && (backing.pane_info.value matches Some(info)
            && info.continuity_id is None) ==> backing.generation() is None,
        backing.expected_generation is None && (backing.pane_info.value matches Some(info)
            && info.continuity_id is Some) ==> {
            let info = backing.pane_info.value->0;
            &&& backing.generation() matches Some(found)
            &&& found.session_id == info.session_id@
            &&& found.session_created == info.session_created
            &&& found.continuity_id == info.continuity_id->0@
        },
{
}

/// A byte is written as its two hexadecimal digits, the higher first.
pub proof fn law_hexadecimal_digits(bytes: Seq<u8>, i: int)
    requires
        0 <= i < bytes.len(),
    ensures
        hex_text(bytes).len() == 2 * bytes.len(),
        ({
            let digits = "0123456789abcdef"@;
            &&& hex_text(bytes)[2 * i] == digits[bytes[i] as int / 16]
            &&& hex_text(bytes)[2 * i + 1] == digits[bytes[i] as int % 16]
        }),
        origin_text(bytes) == "pane-"@ + hex_text(bytes),
{
    reveal_strlit("0123456789abcdef");
    assert((2 * i) / 2 == i && (2 * i + 1) / 2 == i);
    let high = bytes[i] as int / 16;
    let low = bytes[i] as int % 16;
    assert(0 <= high < 16 && 0 <= low < 16);
}

/// Without randomness the bytes come from the clock, the process and a counter: the counter
/// changes the first bytes, and the process the ninth and those behind it.
pub proof fn law_bytes_without_randomness(now: u128, pid: u32, counter: u64)
    ensures
        fallback_byte(now, pid, counter, 0) == (now as u8) ^ (counter as u8),
        fallback_byte(now, pid, counter, 7) == ((now >> 56u128) as u8) ^ ((counter >> 56u64) as u8),
        fallback_byte(now, pid, counter, 8) == ((now >> 64u128) as u8) ^ (pid as u8),
        fallback_byte(now, pid, counter, 15) == (now >> 120u128) as u8,
{
    assert(((now ^ ((pid as u128) << 64u128) ^ (counter as u128)) >> 0u128) as u8 == (now as u8) ^ (
    counter as u8)) by (bit_vector);
    assert(((now ^ ((pid as u128) << 64u128) ^ (counter as u128)) >> 56u128) as u8 == ((now
        >> 56u128) as u8) ^ ((counter >> 56u64) as u8)) by (bit_vector);
    assert(((now ^ ((pid as u128) << 64u128) ^ (counter as u128)) >> 64u128) as u8 == ((now
        >> 64u128) as u8) ^ (pid as u8)) by (bit_vector);
    assert(((now ^ ((pid as u128) << 64u128) ^ (counter as u128)) >> 120u128) as u8 == (now
        >> 120u128) as u8) by (bit_vector);
}

/// Of two panes beside one, the nearer is that with the smaller gap in the direction, and
/// else the one that lies less aside; the id decides where they are as far.
pub proof fn law_the_nearer_pane(a: AdjacentPane, b: AdjacentPane, c: AdjacentPane)
    ensures
        a.primary_gap < b.primary_gap ==> a.nearer(b),
        a.primary_gap == b.primary_gap && a.perpendicular_gap < b.perpendicular_gap ==> a.nearer(b),
        a.primary_gap == b.primary_gap && a.perpendicular_gap == b.perpendicular_gap
            && a.perpendicular_distance < b.perpendicular_distance ==> a.nearer(b),
        a.primary_gap == b.primary_gap && a.perpendicular_gap == b.perpendicular_gap
            && a.perpendicular_distance == b.perpendicular_distance && a.pane_id < b.pane_id
            ==> a.nearer(b),
        !(a.nearer(b) && b.nearer(a)),
        a.nearer(b) && b.nearer(c) ==> a.nearer(c),
        a.pane_id != b.pane_id ==> a.nearer(b) || b.nearer(a),
{
}

/// The way to a pane leads through the splits above it, from the outermost inwards.
pub proof fn law_the_way_to_a_pane(
    direction: SplitDirection,
    first: PaneNode,
    second: PaneNode,
    widget: u64,
    pane_id: u32,
)
    ensures
        ({
            let tree = PaneNode::Split {
                direction,
                first: Box::new(first),
                second: Box::new(second),
                widget,
            };
            &&& first.way_to(pane_id) matches Some(way) ==> tree.way_to(pane_id) == Some(
                seq![PaneSplitPathEntry { widget, target_child: SplitChild::First }]
                    + first.way_to(pane_id)->0,
            )
            &&& first.way_to(pane_id) is None && second.way_to(pane_id) is Some ==> tree.way_to(
                pane_id,
            ) == Some(
                seq![PaneSplitPathEntry { widget, target_child: SplitChild::Second }]
                    + second.way_to(pane_id)->0,
            )
            &&& first.way_to(pane_id) is None && second.way_to(pane_id) is None ==> tree.way_to(
                pane_id,
            ) is None
        }),
{
    let tree = PaneNode::Split {
        direction,
        first: Box::new(first),
        second: Box::new(second),
        widget,
    };
    law_split_path_exists_for_panes(first, pane_id);
    law_split_path_exists_for_panes(second, pane_id);
    lemma_has_slot_concat(first.slots(), second.slots(), pane_id);
}

/// Among the places of a tree the first whose pane has an id is found, whatever
/// stands behind it, and none where no pane has the id.
pub proof fn law_places_are_found_by_id(slots: Seq<PaneSlot>, id: u32, i: int)
    ensures
        0 <= i < slots.len() && slots[i].id() == id && (forall|j: int|
            0 <= j < i ==> (#[trigger] slots[j]).id() != id) ==> find_slot(slots, id) == Some(
            slots[i],
        ),
        (forall|j: int| 0 <= j < slots.len() ==> (#[trigger] slots[j]).id() != id) ==> find_slot(
            slots,
            id,
        ) is None,
    decreases slots.len(),
{
    if slots.len() > 0 {
        let rest = slots.skip(1);
        law_places_are_found_by_id(rest, id, i - 1);
        if 0 < i < slots.len() && (forall|j: int| 0 <= j < i ==> (#[trigger] slots[j]).id() != id) {
            assert(slots[0].id() != id);
            assert forall|j: int| 0 <= j < i - 1 implies (#[trigger] rest[j]).id() != id by {
                assert(rest[j] == slots[j + 1]);
            }
        }
        if forall|j: int| 0 <= j < slots.len() ==> (#[trigger] slots[j]).id() != id {
            assert forall|j: int| 0 <= j < rest.len() implies (#[trigger] rest[j]).id() != id by {
                assert(rest[j] == slots[j + 1]);
            }
        }
    }
}

/// The position of a pane is that of the first with its id, and the number of the
/// panes where none has it.
pub proof fn law_positions_of_panes(leaves: Seq<PaneLeaf>, id: u32, i: int)
    ensures
        0 <= i < leaves.len() && leaves[i].pane_id == id && (forall|j: int|
            0 <= j < i ==> (#[trigger] leaves[j]).pane_id != id) ==> leaf_index(leaves, id) == i,
        (forall|j: int| 0 <= j < leaves.len() ==> (#[trigger] leaves[j]).pane_id != id)
            ==> leaf_index(leaves, id) == leaves.len(),
    decreases leaves.len(),
{
    if leaves.len() > 0 {
        let rest = leaves.skip(1);
        law_positions_of_panes(rest, id, i - 1);
        if 0 < i < leaves.len() && (forall|j: int|
            0 <= j < i ==> (#[trigger] leaves[j]).pane_id != id) {
            assert(leaves[0].pane_id != id);
            assert forall|j: int| 0 <= j < i - 1 implies (#[trigger] rest[j]).pane_id != id by {
                assert(rest[j] == leaves[j + 1]);
            }
        }
        if forall|j: int| 0 <= j < leaves.len() ==> (#[trigger] leaves[j]).pane_id != id {
            assert forall|j: int| 0 <= j < rest.len() implies (#[trigger] rest[j]).pane_id != id by {
                assert(rest[j] == leaves[j + 1]);
            }
        }
    }
}

/// Trees of one shape have their live panes and their stubs at the same places,
/// and a split is never of one shape with anything but a split in the same direction.
pub proof fn law_trees_of_one_shape(a: PaneNode, b: PaneNode, i: int)
    requires
        a.same_shape(b),
    ensures
        a is Split <==> b is Split,
        a is Split ==> a->direction == b->direction && a->widget == b->widget,
        a.slots().len() == b.slots().len(),
        a.live().len() == b.live().len(),
        0 <= i < a.slots().len() ==> (a.slots()[i] is Live <==> b.slots()[i] is Live),
        0 <= i < a.slots().len() && a.slots()[i] is Stub ==> a.slots()[i] == b.slots()[i],
    decreases a,
{
    if let PaneNode::Split { first, second, .. } = a {
        if let PaneNode::Split { first: f2, second: s2, .. } = b {
            law_trees_of_one_shape(*first, *f2, i);
            law_trees_of_one_shape(*second, *s2, i - first.slots().len());
        }
    }
}

} // verus!
