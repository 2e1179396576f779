//! Checksums over what the periodic probes and the session store produce, for workloads
//! that must give the same result on every machine.

use vstd::prelude::*;
use vstd::string::*;
use crate::ordering;
use crate::ordering::sorted_positions;
use crate::pane::PaneProcessState;
use crate::text;
use crate::text::{decimal_text, join_texts};

verus! {

/// The result of a workload.
#[derive(Debug, Clone, Copy, PartialEq, Eq, Structural)]
pub struct WorkloadResult {
    pub checksum: u64,
    /// The reads of the source over all iterations.
    pub source_reads: usize,
}

/// What a probe found of an agent.
#[derive(Debug, Clone, PartialEq, Eq)]
pub struct AgentStatus {
    pub agent_name: Option<String>,
    pub session_id: Option<String>,
    pub running: bool,
}

/// What one round of probes found, by tab and by pane. The entries of agents, ports and
/// processes stand in any order.
#[derive(Debug, Clone)]
pub struct RuntimeProbeSnapshot {
    pub tab_pids: Vec<(u32, Vec<i32>)>,
    pub pane_pids: Vec<((u32, u32), i32)>,
    pub pane_agents: Vec<((u32, u32), AgentStatus)>,
    pub tab_agents: Vec<(u32, AgentStatus)>,
    pub tab_ports: Vec<(u32, Vec<u16>)>,
    pub pane_process_states: Vec<((u32, u32), PaneProcessState)>,
}

/// Where the checksum starts.
pub const OFFSET_BASIS: u64 = 0xcbf2_9ce4_8422_2325;

/// What the checksum is multiplied with for each byte.
pub const PRIME: u64 = 0x0000_0100_0000_01b3;

/// The checksum after one more byte.
pub open spec fn fnv_step(h: u64, byte: u8) -> u64 {
    (h ^ (byte as u64)).wrapping_mul(PRIME)
}

/// The checksum after more bytes.
pub open spec fn fnv(h: u64, bytes: Seq<u8>) -> u64
    decreases bytes.len(),
{
    if bytes.len() == 0 {
        h
    } else {
        fnv_step(fnv(h, bytes.drop_last()), bytes.last())
    }
}

/// The eight bytes of a number, the lowest first.
pub open spec fn le_bytes(v: u64) -> Seq<u8> {
    seq![
        (v & 0xff) as u8,
        ((v >> 8u64) & 0xff) as u8,
        ((v >> 16u64) & 0xff) as u8,
        ((v >> 24u64) & 0xff) as u8,
        ((v >> 32u64) & 0xff) as u8,
        ((v >> 40u64) & 0xff) as u8,
        ((v >> 48u64) & 0xff) as u8,
        ((v >> 56u64) & 0xff) as u8,
    ]
}

/// Bytes with their number in front.
pub open spec fn prefixed(bytes: Seq<u8>) -> Seq<u8> {
    le_bytes(bytes.len() as u64) + bytes
}

/// A text with its length in front.
pub open spec fn text_bytes(s: Seq<char>) -> Seq<u8> {
    prefixed(vstd::utf8::encode_utf8(s))
}

/// A flag.
pub open spec fn flag_bytes(b: bool) -> Seq<u8> {
    le_bytes(if b {
        1u64
    } else {
        0u64
    })
}

/// A number that may be negative.
pub open spec fn int_bytes(v: i32) -> Seq<u8> {
    le_bytes((v as i64) as u64)
}

/// A text that may be missing.
pub open spec fn optional_text_bytes(s: Option<Seq<char>>) -> Seq<u8> {
    match s {
        Some(s) => flag_bytes(true) + text_bytes(s),
        None => flag_bytes(false),
    }
}

/// The numbers of a list, one after the other.
pub open spec fn ints_bytes(values: Seq<i32>) -> Seq<u8>
    decreases values.len(),
{
    if values.len() == 0 {
        Seq::empty()
    } else {
        ints_bytes(values.drop_last()) + int_bytes(values.last())
    }
}

/// The ports of a list, one after the other.
pub open spec fn ports_bytes(ports: Seq<u16>) -> Seq<u8>
    decreases ports.len(),
{
    if ports.len() == 0 {
        Seq::empty()
    } else {
        ports_bytes(ports.drop_last()) + le_bytes(ports.last() as u64)
    }
}

/// The texts of a list, one after the other.
pub open spec fn texts_bytes(texts: Seq<Seq<char>>) -> Seq<u8>
    decreases texts.len(),
{
    if texts.len() == 0 {
        Seq::empty()
    } else {
        texts_bytes(texts.drop_last()) + text_bytes(texts.last())
    }
}

/// What a probe found of an agent.
pub open spec fn agent_bytes(status: AgentStatus) -> Seq<u8> {
    optional_text_bytes(status.agent_name.deep_view()) + optional_text_bytes(
        status.session_id.deep_view(),
    ) + flag_bytes(status.running)
}

/// The bytes of items, one after the other.
pub open spec fn items_bytes<T>(items: Seq<T>, bytes: spec_fn(T) -> Seq<u8>) -> Seq<u8>
    decreases items.len(),
{
    if items.len() == 0 {
        Seq::empty()
    } else {
        items_bytes(items.drop_last(), bytes) + bytes(items.last())
    }
}

/// The checksum of two texts is that of one after the other.
pub proof fn lemma_fnv_concat(h: u64, a: Seq<u8>, b: Seq<u8>)
    ensures
        fnv(h, a + b) == fnv(fnv(h, a), b),
    decreases b.len(),
{
    if b.len() == 0 {
        assert(a + b =~= a);
    } else {
        assert((a + b).drop_last() =~= a + b.drop_last());
        lemma_fnv_concat(h, a, b.drop_last());
    }
}

/// A checksum over fields. It is the same in every version of the compiler, which the
/// hashers of the standard library do not promise, and every text and list has its length
/// in front, so that adjacent fields cannot run together.
pub struct SemanticChecksum {
    pub value: u64,
}

impl SemanticChecksum {
    /// The checksum of nothing.
    pub fn new() -> (r: SemanticChecksum)
        ensures
            r.value == fnv(OFFSET_BASIS, Seq::empty()),
    {
        SemanticChecksum { value: OFFSET_BASIS }
    }

    fn byte(&mut self, byte: u8)
        ensures
            final(self).value == fnv_step(old(self).value, byte),
    {
        self.value = (self.value ^ (byte as u64)).wrapping_mul(PRIME);
    }

    /// Add a number.
    pub fn u64(&mut self, value: u64)
        ensures
            final(self).value == fnv(old(self).value, le_bytes(value)),
    {
        let ghost start = self.value;
        self.byte((value & 0xff) as u8);
        self.byte(((value >> 8u64) & 0xff) as u8);
        self.byte(((value >> 16u64) & 0xff) as u8);
        self.byte(((value >> 24u64) & 0xff) as u8);
        self.byte(((value >> 32u64) & 0xff) as u8);
        self.byte(((value >> 40u64) & 0xff) as u8);
        self.byte(((value >> 48u64) & 0xff) as u8);
        self.byte(((value >> 56u64) & 0xff) as u8);
        proof {
            let all = le_bytes(value);
            reveal_with_fuel(fnv, 9);
            assert(all.drop_last() =~= all.take(7));
            assert(all.take(7).drop_last() =~= all.take(6));
            assert(all.take(6).drop_last() =~= all.take(5));
            assert(all.take(5).drop_last() =~= all.take(4));
            assert(all.take(4).drop_last() =~= all.take(3));
            assert(all.take(3).drop_last() =~= all.take(2));
            assert(all.take(2).drop_last() =~= all.take(1));
            assert(all.take(1).drop_last() =~= all.take(0));
        }
    }

    /// Add bytes, with their number in front.
    pub fn bytes(&mut self, bytes: &[u8])
        ensures
            final(self).value == fnv(old(self).value, prefixed(bytes@)),
    {
        let ghost start = self.value;
        self.u64(bytes.len() as u64);
        let ghost head = self.value;
        let mut i: usize = 0;
        while i < bytes.len()
            invariant
                i <= bytes@.len(),
                self.value == fnv(head, bytes@.take(i as int)),
            decreases bytes@.len() - i,
        {
            assert(bytes@.take(i + 1).drop_last() =~= bytes@.take(i as int));
            self.byte(bytes[i]);
            i += 1;
        }
        assert(bytes@.take(i as int) =~= bytes@);
        proof {
            lemma_fnv_concat(start, le_bytes(bytes@.len() as u64), bytes@);
        }
    }

    /// Add a text.
    pub fn text(&mut self, value: &str)
        ensures
            final(self).value == fnv(old(self).value, text_bytes(value@)),
    {
        self.bytes(value.as_bytes());
    }

    /// Add a number that may be negative.
    pub fn i32(&mut self, value: i32)
        ensures
            final(self).value == fnv(old(self).value, int_bytes(value)),
    {
        self.u64(#[verifier::truncate] ((value as i64) as u64));
    }

    /// Add a list of numbers, with their number in front.
    pub fn i32_slice(&mut self, values: &[i32])
        ensures
            final(self).value == fnv(
                old(self).value,
                le_bytes(values@.len() as u64) + ints_bytes(values@),
            ),
    {
        let ghost start = self.value;
        let ghost len = le_bytes(values@.len() as u64);
        self.u64(values.len() as u64);
        assert(len + ints_bytes(values@.take(0)) =~= len);
        let mut i: usize = 0;
        while i < values.len()
            invariant
                i <= values@.len(),
                self.value == fnv(start, len + ints_bytes(values@.take(i as int))),
            decreases values@.len() - i,
        {
            assert(values@.take(i + 1).drop_last() =~= values@.take(i as int));
            proof {
                let before = len + ints_bytes(values@.take(i as int));
                lemma_fnv_concat(start, before, int_bytes(values@[i as int]));
                assert(before + int_bytes(values@[i as int]) =~= len + ints_bytes(
                    values@.take(i + 1),
                ));
            }
            self.i32(values[i]);
            i += 1;
        }
        assert(values@.take(i as int) =~= values@);
    }

    /// Add a flag.
    pub fn boolean(&mut self, value: bool)
        ensures
            final(self).value == fnv(old(self).value, flag_bytes(value)),
    {
        self.u64(if value {
            1u64
        } else {
            0u64
        });
    }

    /// Add a text that may be missing.
    pub fn optional_text(&mut self, value: &Option<String>)
        ensures
            final(self).value == fnv(old(self).value, optional_text_bytes(value.deep_view())),
    {
        let ghost start = self.value;
        self.boolean(value.is_some());
        if let Some(s) = value {
            self.text(s.as_str());
            proof {
                lemma_fnv_concat(start, flag_bytes(true), text_bytes(s@));
            }
        }
    }

    /// Add what a probe found of an agent.
    pub fn agent_status(&mut self, status: &AgentStatus)
        ensures
            final(self).value == fnv(old(self).value, agent_bytes(*status)),
    {
        let ghost start = self.value;
        let ghost a = optional_text_bytes(status.agent_name.deep_view());
        let ghost b = optional_text_bytes(status.session_id.deep_view());
        self.optional_text(&status.agent_name);
        self.optional_text(&status.session_id);
        self.boolean(status.running);
        proof {
            lemma_fnv_concat(start, a, b);
            lemma_fnv_concat(start, a + b, flag_bytes(status.running));
        }
    }
}

proof fn lemma_le_bytes_injective(a: u64, b: u64)
    requires
        le_bytes(a) == le_bytes(b),
    ensures
        a == b,
{
    assert(le_bytes(a)[0] == le_bytes(b)[0]);
    assert(le_bytes(a)[1] == le_bytes(b)[1]);
    assert(le_bytes(a)[2] == le_bytes(b)[2]);
    assert(le_bytes(a)[3] == le_bytes(b)[3]);
    assert(le_bytes(a)[4] == le_bytes(b)[4]);
    assert(le_bytes(a)[5] == le_bytes(b)[5]);
    assert(le_bytes(a)[6] == le_bytes(b)[6]);
    assert(le_bytes(a)[7] == le_bytes(b)[7]);
    assert(a == b) by (bit_vector)
        requires
            (a & 0xff) as u8 == (b & 0xff) as u8,
            ((a >> 8u64) & 0xff) as u8 == ((b >> 8u64) & 0xff) as u8,
            ((a >> 16u64) & 0xff) as u8 == ((b >> 16u64) & 0xff) as u8,
            ((a >> 24u64) & 0xff) as u8 == ((b >> 24u64) & 0xff) as u8,
            ((a >> 32u64) & 0xff) as u8 == ((b >> 32u64) & 0xff) as u8,
            ((a >> 40u64) & 0xff) as u8 == ((b >> 40u64) & 0xff) as u8,
            ((a >> 48u64) & 0xff) as u8 == ((b >> 48u64) & 0xff) as u8,
            ((a >> 56u64) & 0xff) as u8 == ((b >> 56u64) & 0xff) as u8,
    ;
}

/// Fields with their length in front cannot run together: two rows of fields are the same
/// bytes only if their first fields are the same and so are the rests.
pub proof fn law_prefixed_fields_stay_apart(
    a: Seq<u8>,
    b: Seq<u8>,
    after_a: Seq<u8>,
    after_b: Seq<u8>,
)
    requires
        a.len() <= u64::MAX,
        b.len() <= u64::MAX,
        prefixed(a) + after_a == prefixed(b) + after_b,
    ensures
        a == b,
        after_a == after_b,
{
    let x = prefixed(a) + after_a;
    let y = prefixed(b) + after_b;
    let len_a = le_bytes(a.len() as u64);
    let len_b = le_bytes(b.len() as u64);
    assert(len_a =~= x.take(8));
    assert(len_b =~= y.take(8));
    lemma_le_bytes_injective(a.len() as u64, b.len() as u64);
    assert(a =~= x.subrange(8, 8 + a.len() as int));
    assert(b =~= y.subrange(8, 8 + b.len() as int));
    assert(after_a =~= x.skip(8 + a.len() as int));
    assert(after_b =~= y.skip(8 + b.len() as int));
}

/// The order of panes: by tab, and by pane within a tab.
pub open spec fn pane_rank(tab_id: u32, pane_id: u32) -> int {
    tab_id * 0x1_0000_0000 + pane_id
}

fn rank_of(tab_id: u32, pane_id: u32) -> (r: u64)
    ensures
        r == pane_rank(tab_id, pane_id),
{
    tab_id as u64 * 0x1_0000_0000 + pane_id as u64
}

/// The ids of a tab and a pane.
pub open spec fn pane_bytes(tab_id: u32, pane_id: u32) -> Seq<u8> {
    le_bytes(tab_id as u64) + le_bytes(pane_id as u64)
}

/// The processes of a tab.
pub open spec fn tab_pids_entry(entry: (u32, Vec<i32>)) -> Seq<u8> {
    le_bytes(entry.0 as u64) + (le_bytes(entry.1@.len() as u64) + ints_bytes(entry.1@))
}

/// The process of a pane.
pub open spec fn pane_pid_entry(entry: ((u32, u32), i32)) -> Seq<u8> {
    pane_bytes(entry.0.0, entry.0.1) + int_bytes(entry.1)
}

/// The agent of a pane.
pub open spec fn pane_agent_entry(entry: ((u32, u32), AgentStatus)) -> Seq<u8> {
    pane_bytes(entry.0.0, entry.0.1) + agent_bytes(entry.1)
}

/// The agent of a tab.
pub open spec fn tab_agent_entry(entry: (u32, AgentStatus)) -> Seq<u8> {
    le_bytes(entry.0 as u64) + agent_bytes(entry.1)
}

/// The ports of a tab.
pub open spec fn tab_ports_entry(entry: (u32, Vec<u16>)) -> Seq<u8> {
    le_bytes(entry.0 as u64) + le_bytes(entry.1@.len() as u64) + ports_bytes(entry.1@)
}

/// The arguments of an SSH client: nothing is told from no arguments.
pub open spec fn ssh_bytes(ssh_command: Option<Seq<Seq<char>>>) -> Seq<u8> {
    match ssh_command {
        None => le_bytes(0),
        Some(args) => le_bytes((args.len() as u64).wrapping_add(1)) + texts_bytes(args),
    }
}

/// What runs in a pane.
pub open spec fn process_entry(entry: ((u32, u32), PaneProcessState)) -> Seq<u8> {
    pane_bytes(entry.0.0, entry.0.1) + flag_bytes(entry.1.has_child_process) + flag_bytes(
        entry.1.remote_shell,
    ) + ssh_bytes(entry.1.ssh_command.deep_view())
}

/// The part of a snapshot that holds the processes of tabs.
pub open spec fn tab_pids_part(snapshot: RuntimeProbeSnapshot) -> Seq<u8> {
    text_bytes("tab-pids"@) + items_bytes(
        snapshot.tab_pids@,
        |e: (u32, Vec<i32>)| tab_pids_entry(e),
    )
}

/// The part of a snapshot that holds the processes of panes.
pub open spec fn pane_pids_part(snapshot: RuntimeProbeSnapshot) -> Seq<u8> {
    text_bytes("pane-pids"@) + items_bytes(
        snapshot.pane_pids@,
        |e: ((u32, u32), i32)| pane_pid_entry(e),
    )
}

/// The rank of a pane's agent.
pub open spec fn pane_agent_rank() -> spec_fn(((u32, u32), AgentStatus)) -> int {
    |e: ((u32, u32), AgentStatus)| pane_rank(e.0.0, e.0.1)
}

/// The rank of a tab's agent.
pub open spec fn tab_agent_rank() -> spec_fn((u32, AgentStatus)) -> int {
    |e: (u32, AgentStatus)| e.0 as int
}

/// The rank of a tab's ports.
pub open spec fn tab_ports_rank() -> spec_fn((u32, Vec<u16>)) -> int {
    |e: (u32, Vec<u16>)| e.0 as int
}

/// The rank of a pane's process.
pub open spec fn process_rank() -> spec_fn(((u32, u32), PaneProcessState)) -> int {
    |e: ((u32, u32), PaneProcessState)| pane_rank(e.0.0, e.0.1)
}

/// The part of a snapshot that holds the agents of panes, in the order of the panes.
pub open spec fn pane_agents_part(snapshot: RuntimeProbeSnapshot) -> Seq<u8> {
    text_bytes("pane-agents"@) + items_bytes(
        ordering::sorted_by_key(snapshot.pane_agents@, pane_agent_rank()),
        |e: ((u32, u32), AgentStatus)| pane_agent_entry(e),
    )
}

/// The part of a snapshot that holds the agents of tabs, in the order of the tabs.
pub open spec fn tab_agents_part(snapshot: RuntimeProbeSnapshot) -> Seq<u8> {
    text_bytes("tab-agents"@) + items_bytes(
        ordering::sorted_by_key(snapshot.tab_agents@, tab_agent_rank()),
        |e: (u32, AgentStatus)| tab_agent_entry(e),
    )
}

/// The part of a snapshot that holds the ports of tabs, in the order of the tabs.
pub open spec fn tab_ports_part(snapshot: RuntimeProbeSnapshot) -> Seq<u8> {
    text_bytes("tab-ports"@) + items_bytes(
        ordering::sorted_by_key(snapshot.tab_ports@, tab_ports_rank()),
        |e: (u32, Vec<u16>)| tab_ports_entry(e),
    )
}

/// The part of a snapshot that holds what runs in panes, in the order of the panes.
pub open spec fn processes_part(snapshot: RuntimeProbeSnapshot) -> Seq<u8> {
    text_bytes("pane-process-states"@) + items_bytes(
        ordering::sorted_by_key(snapshot.pane_process_states@, process_rank()),
        |e: ((u32, u32), PaneProcessState)| process_entry(e),
    )
}

/// All that the checksum of a snapshot covers.
pub open spec fn snapshot_bytes(snapshot: RuntimeProbeSnapshot) -> Seq<u8> {
    tab_pids_part(snapshot) + pane_pids_part(snapshot) + pane_agents_part(snapshot)
        + tab_agents_part(snapshot) + tab_ports_part(snapshot) + processes_part(snapshot)
}

proof fn lemma_items_bytes_step<T>(items: Seq<T>, bytes: spec_fn(T) -> Seq<u8>, i: int)
    requires
        0 <= i < items.len(),
    ensures
        items_bytes(items.take(i + 1), bytes) == items_bytes(items.take(i), bytes) + bytes(items[i]),
{
    assert(items.take(i + 1).drop_last() =~= items.take(i));
}

/// The checksum after a label and the items of a list.
proof fn lemma_part_step<T>(
    start: u64,
    label: Seq<u8>,
    items: Seq<T>,
    bytes: spec_fn(T) -> Seq<u8>,
    i: int,
)
    requires
        0 <= i < items.len(),
    ensures
        fnv(fnv(start, label + items_bytes(items.take(i), bytes)), bytes(items[i])) == fnv(
            start,
            label + items_bytes(items.take(i + 1), bytes),
        ),
{
    let before = label + items_bytes(items.take(i), bytes);
    lemma_items_bytes_step(items, bytes, i);
    lemma_fnv_concat(start, before, bytes(items[i]));
    assert(before + bytes(items[i]) =~= label + items_bytes(items.take(i + 1), bytes));
}

impl SemanticChecksum {
    fn pane(&mut self, tab_id: u32, pane_id: u32)
        ensures
            final(self).value == fnv(old(self).value, pane_bytes(tab_id, pane_id)),
    {
        proof {
            lemma_fnv_concat(self.value, le_bytes(tab_id as u64), le_bytes(pane_id as u64));
        }
        self.u64(tab_id as u64);
        self.u64(pane_id as u64);
    }

    fn tab_pids(&mut self, snapshot: &RuntimeProbeSnapshot)
        ensures
            final(self).value == fnv(old(self).value, tab_pids_part(*snapshot)),
    {
        let ghost start = self.value;
        let ghost label = text_bytes("tab-pids"@);
        let ghost items = snapshot.tab_pids@;
        let ghost bytes = |e: (u32, Vec<i32>)| tab_pids_entry(e);
        self.text("tab-pids");
        assert(label + items_bytes(items.take(0), bytes) =~= label);
        let mut i: usize = 0;
        while i < snapshot.tab_pids.len()
            invariant
                items == snapshot.tab_pids@,
                bytes == (|e: (u32, Vec<i32>)| tab_pids_entry(e)),
                i <= items.len(),
                self.value == fnv(start, label + items_bytes(items.take(i as int), bytes)),
            decreases items.len() - i,
        {
            proof {
                lemma_part_step(start, label, items, bytes, i as int);
                let e = items[i as int];
                lemma_fnv_concat(
                    self.value,
                    le_bytes(e.0 as u64),
                    le_bytes(e.1@.len() as u64) + ints_bytes(e.1@),
                );
            }
            let entry = &snapshot.tab_pids[i];
            self.u64(entry.0 as u64);
            self.i32_slice(entry.1.as_slice());
            i += 1;
        }
        assert(items.take(i as int) =~= items);
    }

    fn pane_pids(&mut self, snapshot: &RuntimeProbeSnapshot)
        ensures
            final(self).value == fnv(old(self).value, pane_pids_part(*snapshot)),
    {
        let ghost start = self.value;
        let ghost label = text_bytes("pane-pids"@);
        let ghost items = snapshot.pane_pids@;
        let ghost bytes = |e: ((u32, u32), i32)| pane_pid_entry(e);
        self.text("pane-pids");
        assert(label + items_bytes(items.take(0), bytes) =~= label);
        let mut i: usize = 0;
        while i < snapshot.pane_pids.len()
            invariant
                items == snapshot.pane_pids@,
                bytes == (|e: ((u32, u32), i32)| pane_pid_entry(e)),
                i <= items.len(),
                self.value == fnv(start, label + items_bytes(items.take(i as int), bytes)),
            decreases items.len() - i,
        {
            proof {
                lemma_part_step(start, label, items, bytes, i as int);
                let e = items[i as int];
                lemma_fnv_concat(self.value, pane_bytes(e.0.0, e.0.1), int_bytes(e.1));
            }
            let entry = &snapshot.pane_pids[i];
            self.pane(entry.0.0, entry.0.1);
            self.i32(entry.1);
            i += 1;
        }
        assert(items.take(i as int) =~= items);
    }

    fn pane_agents(&mut self, snapshot: &RuntimeProbeSnapshot)
        ensures
            final(self).value == fnv(old(self).value, pane_agents_part(*snapshot)),
    {
        let list = &snapshot.pane_agents;
        let mut keys: Vec<u64> = Vec::new();
        let mut i: usize = 0;
        while i < list.len()
            invariant
                i <= list@.len(),
                keys@.len() == i,
                forall|k: int|
                    0 <= k < i ==> keys@[k] == pane_rank(
                        (#[trigger] list@[k]).0.0,
                        list@[k].0.1,
                    ),
            decreases list@.len() - i,
        {
            keys.push(rank_of(list[i].0.0, list[i].0.1));
            i += 1;
        }
        let positions = sorted_positions(list, &keys, Ghost(pane_agent_rank()));
        let ghost start = self.value;
        let ghost label = text_bytes("pane-agents"@);
        let ghost items = ordering::sorted_by_key(list@, pane_agent_rank());
        let ghost bytes = |e: ((u32, u32), AgentStatus)| pane_agent_entry(e);
        self.text("pane-agents");
        assert(label + items_bytes(items.take(0), bytes) =~= label);
        let mut i: usize = 0;
        while i < positions.len()
            invariant
                items.len() == positions@.len(),
                forall|k: int| 0 <= k < positions@.len() ==> (#[trigger] positions@[k]) < list@.len(),
                forall|k: int|
                    0 <= k < positions@.len() ==> list@[(#[trigger] positions@[k]) as int] == items[k],
                bytes == (|e: ((u32, u32), AgentStatus)| pane_agent_entry(e)),
                i <= items.len(),
                self.value == fnv(start, label + items_bytes(items.take(i as int), bytes)),
            decreases items.len() - i,
        {
            proof {
                lemma_part_step(start, label, items, bytes, i as int);
                let e = items[i as int];
                lemma_fnv_concat(self.value, pane_bytes(e.0.0, e.0.1), agent_bytes(e.1));
            }
            let entry = &list[positions[i]];
            self.pane(entry.0.0, entry.0.1);
            self.agent_status(&entry.1);
            i += 1;
        }
        assert(items.take(i as int) =~= items);
    }

    fn tab_agents(&mut self, snapshot: &RuntimeProbeSnapshot)
        ensures
            final(self).value == fnv(old(self).value, tab_agents_part(*snapshot)),
    {
        let list = &snapshot.tab_agents;
        let mut keys: Vec<u64> = Vec::new();
        let mut i: usize = 0;
        while i < list.len()
            invariant
                i <= list@.len(),
                keys@.len() == i,
                forall|k: int| 0 <= k < i ==> keys@[k] == (#[trigger] list@[k]).0,
            decreases list@.len() - i,
        {
            keys.push(list[i].0 as u64);
            i += 1;
        }
        let positions = sorted_positions(list, &keys, Ghost(tab_agent_rank()));
        let ghost start = self.value;
        let ghost label = text_bytes("tab-agents"@);
        let ghost items = ordering::sorted_by_key(list@, tab_agent_rank());
        let ghost bytes = |e: (u32, AgentStatus)| tab_agent_entry(e);
        self.text("tab-agents");
        assert(label + items_bytes(items.take(0), bytes) =~= label);
        let mut i: usize = 0;
        while i < positions.len()
            invariant
                items.len() == positions@.len(),
                forall|k: int| 0 <= k < positions@.len() ==> (#[trigger] positions@[k]) < list@.len(),
                forall|k: int|
                    0 <= k < positions@.len() ==> list@[(#[trigger] positions@[k]) as int] == items[k],
                bytes == (|e: (u32, AgentStatus)| tab_agent_entry(e)),
                i <= items.len(),
                self.value == fnv(start, label + items_bytes(items.take(i as int), bytes)),
            decreases items.len() - i,
        {
            proof {
                lemma_part_step(start, label, items, bytes, i as int);
                let e = items[i as int];
                lemma_fnv_concat(self.value, le_bytes(e.0 as u64), agent_bytes(e.1));
            }
            let entry = &list[positions[i]];
            self.u64(entry.0 as u64);
            self.agent_status(&entry.1);
            i += 1;
        }
        assert(items.take(i as int) =~= items);
    }

    fn ports(&mut self, ports: &Vec<u16>)
        ensures
            final(self).value == fnv(old(self).value, ports_bytes(ports@)),
    {
        let ghost start = self.value;
        let mut i: usize = 0;
        while i < ports.len()
            invariant
                i <= ports@.len(),
                self.value == fnv(start, ports_bytes(ports@.take(i as int))),
            decreases ports@.len() - i,
        {
            assert(ports@.take(i + 1).drop_last() =~= ports@.take(i as int));
            proof {
                lemma_fnv_concat(
                    start,
                    ports_bytes(ports@.take(i as int)),
                    le_bytes(ports@[i as int] as u64),
                );
            }
            self.u64(ports[i] as u64);
            i += 1;
        }
        assert(ports@.take(i as int) =~= ports@);
    }

    fn tab_ports(&mut self, snapshot: &RuntimeProbeSnapshot)
        ensures
            final(self).value == fnv(old(self).value, tab_ports_part(*snapshot)),
    {
        let list = &snapshot.tab_ports;
        let mut keys: Vec<u64> = Vec::new();
        let mut i: usize = 0;
        while i < list.len()
            invariant
                i <= list@.len(),
                keys@.len() == i,
                forall|k: int| 0 <= k < i ==> keys@[k] == (#[trigger] list@[k]).0,
            decreases list@.len() - i,
        {
            keys.push(list[i].0 as u64);
            i += 1;
        }
        let positions = sorted_positions(list, &keys, Ghost(tab_ports_rank()));
        let ghost start = self.value;
        let ghost label = text_bytes("tab-ports"@);
        let ghost items = ordering::sorted_by_key(list@, tab_ports_rank());
        let ghost bytes = |e: (u32, Vec<u16>)| tab_ports_entry(e);
        self.text("tab-ports");
        assert(label + items_bytes(items.take(0), bytes) =~= label);
        let mut i: usize = 0;
        while i < positions.len()
            invariant
                items.len() == positions@.len(),
                forall|k: int| 0 <= k < positions@.len() ==> (#[trigger] positions@[k]) < list@.len(),
                forall|k: int|
                    0 <= k < positions@.len() ==> list@[(#[trigger] positions@[k]) as int] == items[k],
                bytes == (|e: (u32, Vec<u16>)| tab_ports_entry(e)),
                i <= items.len(),
                self.value == fnv(start, label + items_bytes(items.take(i as int), bytes)),
            decreases items.len() - i,
        {
            proof {
                lemma_part_step(start, label, items, bytes, i as int);
                let e = items[i as int];
                let a = le_bytes(e.0 as u64);
                let b = le_bytes(e.1@.len() as u64);
                lemma_fnv_concat(self.value, a + b, ports_bytes(e.1@));
                lemma_fnv_concat(self.value, a, b);
            }
            let entry = &list[positions[i]];
            self.u64(entry.0 as u64);
            self.u64(entry.1.len() as u64);
            self.ports(&entry.1);
            i += 1;
        }
        assert(items.take(i as int) =~= items);
    }

    fn ssh_command(&mut self, ssh_command: &Option<Vec<String>>)
        ensures
            final(self).value == fnv(old(self).value, ssh_bytes(ssh_command.deep_view())),
    {
        match ssh_command {
            None => {
                self.u64(0);
            },
            Some(args) => {
                let ghost start = self.value;
                let ghost model = args.deep_view();
                let ghost len = le_bytes((args@.len() as u64).wrapping_add(1));
                self.u64((args.len() as u64).wrapping_add(1));
                assert(len + texts_bytes(model.take(0)) =~= len);
                let mut i: usize = 0;
                while i < args.len()
                    invariant
                        model == args.deep_view(),
                        i <= args@.len(),
                        self.value == fnv(start, len + texts_bytes(model.take(i as int))),
                    decreases args@.len() - i,
                {
                    assert(model.take(i + 1).drop_last() =~= model.take(i as int));
                    assert(model[i as int] == args@[i as int]@);
                    proof {
                        let before = len + texts_bytes(model.take(i as int));
                        lemma_fnv_concat(start, before, text_bytes(model[i as int]));
                        assert(before + text_bytes(model[i as int]) =~= len + texts_bytes(
                            model.take(i + 1),
                        ));
                    }
                    self.text(args[i].as_str());
                    i += 1;
                }
                assert(model.take(i as int) =~= model);
            },
        }
    }

    fn processes(&mut self, snapshot: &RuntimeProbeSnapshot)
        ensures
            final(self).value == fnv(old(self).value, processes_part(*snapshot)),
    {
        let list = &snapshot.pane_process_states;
        let mut keys: Vec<u64> = Vec::new();
        let mut i: usize = 0;
        while i < list.len()
            invariant
                i <= list@.len(),
                keys@.len() == i,
                forall|k: int|
                    0 <= k < i ==> keys@[k] == pane_rank(
                        (#[trigger] list@[k]).0.0,
                        list@[k].0.1,
                    ),
            decreases list@.len() - i,
        {
            keys.push(rank_of(list[i].0.0, list[i].0.1));
            i += 1;
        }
        let positions = sorted_positions(list, &keys, Ghost(process_rank()));
        let ghost start = self.value;
        let ghost label = text_bytes("pane-process-states"@);
        let ghost items = ordering::sorted_by_key(list@, process_rank());
        let ghost bytes = |e: ((u32, u32), PaneProcessState)| process_entry(e);
        self.text("pane-process-states");
        assert(label + items_bytes(items.take(0), bytes) =~= label);
        let mut i: usize = 0;
        while i < positions.len()
            invariant
                list@ == snapshot.pane_process_states@,
                items.len() == positions@.len(),
                forall|k: int| 0 <= k < positions@.len() ==> (#[trigger] positions@[k]) < list@.len(),
                forall|k: int|
                    0 <= k < positions@.len() ==> list@[(#[trigger] positions@[k]) as int] == items[k],
                bytes == (|e: ((u32, u32), PaneProcessState)| process_entry(e)),
                i <= items.len(),
                self.value == fnv(start, label + items_bytes(items.take(i as int), bytes)),
            decreases items.len() - i,
        {
            proof {
                lemma_part_step(start, label, items, bytes, i as int);
                let e = items[i as int];
                let a = pane_bytes(e.0.0, e.0.1);
                let b = flag_bytes(e.1.has_child_process);
                let c = flag_bytes(e.1.remote_shell);
                let d = ssh_bytes(e.1.ssh_command.deep_view());
                lemma_fnv_concat(self.value, a + b + c, d);
                lemma_fnv_concat(self.value, a + b, c);
                lemma_fnv_concat(self.value, a, b);
            }
            let entry = &list[positions[i]];
            assert(list@[positions@[i as int] as int] == *entry);
            self.pane(entry.0.0, entry.0.1);
            self.boolean(entry.1.has_child_process);
            self.boolean(entry.1.remote_shell);
            self.ssh_command(&entry.1.ssh_command);
            i += 1;
        }
        assert(items.take(i as int) =~= items);
    }
}

/// The checksum of what a round of probes found.
pub fn snapshot_checksum(snapshot: &RuntimeProbeSnapshot) -> (r: u64)
    ensures
        r == fnv(OFFSET_BASIS, snapshot_bytes(*snapshot)),
{
    let mut checksum = SemanticChecksum::new();
    checksum.tab_pids(snapshot);
    checksum.pane_pids(snapshot);
    checksum.pane_agents(snapshot);
    checksum.tab_agents(snapshot);
    checksum.tab_ports(snapshot);
    checksum.processes(snapshot);
    proof {
        let a = tab_pids_part(*snapshot);
        let b = pane_pids_part(*snapshot);
        let c = pane_agents_part(*snapshot);
        let d = tab_agents_part(*snapshot);
        let e = tab_ports_part(*snapshot);
        let f = processes_part(*snapshot);
        lemma_fnv_concat(OFFSET_BASIS, a + b + c + d + e, f);
        lemma_fnv_concat(OFFSET_BASIS, a + b + c + d, e);
        lemma_fnv_concat(OFFSET_BASIS, a + b + c, d);
        lemma_fnv_concat(OFFSET_BASIS, a + b, c);
        lemma_fnv_concat(OFFSET_BASIS, a, b);
    }
    checksum.value
}

/// The checksum of a session in its saved form.
pub fn session_state_checksum(encoded: &[u8]) -> (r: u64)
    ensures
        r == fnv(OFFSET_BASIS, text_bytes("session-state"@) + prefixed(encoded@)),
{
    let mut checksum = SemanticChecksum::new();
    proof {
        lemma_fnv_concat(OFFSET_BASIS, text_bytes("session-state"@), prefixed(encoded@));
    }
    checksum.text("session-state");
    checksum.bytes(encoded);
    checksum.value
}

/// The sum of checksums, without what does not fit in 64 bits.
pub open spec fn checksum_sum(checksums: Seq<u64>) -> u64
    decreases checksums.len(),
{
    if checksums.len() == 0 {
        0
    } else {
        checksum_sum(checksums.drop_last()).wrapping_add(checksums.last())
    }
}

/// The checksums of the rounds.
pub open spec fn round_checksums(snapshots: Seq<RuntimeProbeSnapshot>) -> Seq<u64> {
    Seq::new(snapshots.len(), |i: int| fnv(OFFSET_BASIS, snapshot_bytes(snapshots[i])))
}

/// The result of rounds of probes: the sum of their checksums, and the reads that they
/// took.
pub fn runtime_probe(snapshots: &Vec<RuntimeProbeSnapshot>, source_reads: usize) -> (r:
    WorkloadResult)
    ensures
        r.checksum == checksum_sum(round_checksums(snapshots@)),
        r.source_reads == source_reads,
{
    let ghost sums = round_checksums(snapshots@);
    let mut checksum: u64 = 0;
    let mut i: usize = 0;
    while i < snapshots.len()
        invariant
            sums == round_checksums(snapshots@),
            i <= snapshots@.len(),
            checksum == checksum_sum(sums.take(i as int)),
        decreases snapshots@.len() - i,
    {
        assert(sums.take(i + 1).drop_last() =~= sums.take(i as int));
        checksum = checksum.wrapping_add(snapshot_checksum(&snapshots[i]));
        i += 1;
    }
    assert(sums.take(i as int) =~= sums);
    WorkloadResult { checksum, source_reads }
}

/// The result of restoring a session repeatedly: the sum of the checksums of what each
/// restore saved again. Nothing is read from a source.
pub fn session_restore(encoded: &Vec<Vec<u8>>) -> (r: WorkloadResult)
    ensures
        r.checksum == checksum_sum(
            Seq::new(
                encoded@.len(),
                |i: int|
                    fnv(OFFSET_BASIS, text_bytes("session-state"@) + prefixed(encoded@[i]@)),
            ),
        ),
        r.source_reads == 0,
{
    let ghost sums = Seq::new(
        encoded@.len(),
        |i: int| fnv(OFFSET_BASIS, text_bytes("session-state"@) + prefixed(encoded@[i]@)),
    );
    let mut checksum: u64 = 0;
    let mut i: usize = 0;
    while i < encoded.len()
        invariant
            sums == Seq::new(
                encoded@.len(),
                |i: int| fnv(OFFSET_BASIS, text_bytes("session-state"@) + prefixed(encoded@[i]@)),
            ),
            i <= encoded@.len(),
            checksum == checksum_sum(sums.take(i as int)),
        decreases encoded@.len() - i,
    {
        assert(sums.take(i + 1).drop_last() =~= sums.take(i as int));
        checksum = checksum.wrapping_add(session_state_checksum(encoded[i].as_slice()));
        i += 1;
    }
    assert(sums.take(i as int) =~= sums);
    WorkloadResult { checksum, source_reads: 0 }
}

/// The checksum does not depend on the order in which a snapshot lists what it found of
/// agents, ports and processes.
pub proof fn law_checksum_ignores_the_order_of_findings(
    a: RuntimeProbeSnapshot,
    b: RuntimeProbeSnapshot,
)
    requires
        a.tab_pids@ == b.tab_pids@,
        a.pane_pids@ == b.pane_pids@,
        a.pane_agents@.to_multiset() == b.pane_agents@.to_multiset(),
        a.tab_agents@.to_multiset() == b.tab_agents@.to_multiset(),
        a.tab_ports@.to_multiset() == b.tab_ports@.to_multiset(),
        a.pane_process_states@.to_multiset() == b.pane_process_states@.to_multiset(),
        ordering::distinct_keys(a.pane_agents@, pane_agent_rank()),
        ordering::distinct_keys(a.tab_agents@, tab_agent_rank()),
        ordering::distinct_keys(a.tab_ports@, tab_ports_rank()),
        ordering::distinct_keys(a.pane_process_states@, process_rank()),
    ensures
        snapshot_bytes(a) == snapshot_bytes(b),
{
    ordering::lemma_sorting_forgets_the_order(a.pane_agents@, b.pane_agents@, pane_agent_rank());
    ordering::lemma_sorting_forgets_the_order(a.tab_agents@, b.tab_agents@, tab_agent_rank());
    ordering::lemma_sorting_forgets_the_order(a.tab_ports@, b.tab_ports@, tab_ports_rank());
    ordering::lemma_sorting_forgets_the_order(
        a.pane_process_states@,
        b.pane_process_states@,
        process_rank(),
    );
}

/// A process of the synthetic workload.
#[derive(Debug, Clone, PartialEq, Eq)]
pub struct SyntheticProcess {
    pub pid: i32,
    pub child: Option<i32>,
    pub comm: String,
    pub cmdline: Vec<String>,
    /// The directory of a pane's shell.
    pub cwd: Option<String>,
    pub socket_inode: u64,
    /// The port that the socket listens on.
    pub listen_port: Option<u16>,
}

/// The mathematical value of a [`SyntheticProcess`].
pub struct ProcessView {
    pub pid: int,
    pub child: Option<int>,
    pub comm: Seq<char>,
    pub cmdline: Seq<Seq<char>>,
    pub cwd: Option<Seq<char>>,
    pub socket_inode: int,
    pub listen_port: Option<int>,
}

impl DeepView for SyntheticProcess {
    type V = ProcessView;

    open spec fn deep_view(&self) -> ProcessView {
        ProcessView {
            pid: self.pid as int,
            child: match self.child {
                Some(pid) => Some(pid as int),
                None => None,
            },
            comm: self.comm@,
            cmdline: self.cmdline.deep_view(),
            cwd: self.cwd.deep_view(),
            socket_inode: self.socket_inode as int,
            listen_port: match self.listen_port {
                Some(port) => Some(port as int),
                None => None,
            },
        }
    }
}

/// The synthetic workload: what runs in the panes of eight tabs.
#[derive(Debug, Clone, PartialEq, Eq)]
pub struct SyntheticProbeFixture {
    pub processes: Vec<SyntheticProcess>,
    pub tab_pids: Vec<(u32, Vec<i32>)>,
    pub pane_pids: Vec<(u32, u32, i32)>,
}

/// The shell of a pane: tabs are counted from 1, and so are the panes of a tab.
pub open spec fn shell_pid(tab: int, pane: int) -> int {
    tab * 10_000 + pane * 100
}

/// Process `depth` of a pane. Each process has the next one as its child; the second is
/// an agent, of one kind in the panes with an even number and of another in the others;
/// the last one listens on a port.
pub open spec fn synthetic_process(
    tab: int,
    pane: int,
    depth: int,
    even_agent: Seq<char>,
    odd_agent: Seq<char>,
) -> ProcessView {
    let pid = shell_pid(tab, pane) + depth;
    let comm = if depth == 1 {
        if pane % 2 == 0 {
            even_agent
        } else {
            odd_agent
        }
    } else {
        "worker"@
    };
    ProcessView {
        pid,
        child: if depth < 11 {
            Some(pid + 1)
        } else {
            None
        },
        comm,
        cmdline: seq![
            comm,
            "--fixture="@ + text::decimal(tab as nat) + "-"@ + text::decimal(pane as nat) + "-"@
                + text::decimal(depth as nat),
        ],
        cwd: if depth == 0 {
            Some("/workspace/tab-"@ + text::decimal(tab as nat))
        } else {
            None
        },
        socket_inode: pid + 1_000_000,
        listen_port: if depth == 11 {
            Some(3_000 + pane)
        } else {
            None
        },
    }
}

fn make_process(tab: u32, pane: u32, depth: u32, even_agent: &str, odd_agent: &str) -> (r:
    SyntheticProcess)
    requires
        1 <= tab <= 8,
        1 <= pane <= 4,
        depth < 12,
    ensures
        r.deep_view() == synthetic_process(
            tab as int,
            pane as int,
            depth as int,
            even_agent@,
            odd_agent@,
        ),
{
    let pid: i32 = tab as i32 * 10_000 + pane as i32 * 100 + depth as i32;
    let comm = if depth == 1 {
        if pane % 2 == 0 {
            even_agent.to_owned()
        } else {
            odd_agent.to_owned()
        }
    } else {
        "worker".to_owned()
    };
    let mut label = "--fixture=".to_owned();
    label.append(decimal_text(tab as u64).as_str());
    label.append("-");
    label.append(decimal_text(pane as u64).as_str());
    label.append("-");
    label.append(decimal_text(depth as u64).as_str());
    let ghost comm_text = comm@;
    let ghost label_text = label@;
    let mut cmdline: Vec<String> = Vec::new();
    cmdline.push(comm.clone());
    cmdline.push(label);
    assert(cmdline.deep_view() =~= seq![comm_text, label_text]);
    let cwd = if depth == 0 {
        let mut dir = "/workspace/tab-".to_owned();
        dir.append(decimal_text(tab as u64).as_str());
        Some(dir)
    } else {
        None
    };
    SyntheticProcess {
        pid,
        child: if depth < 11 {
            Some(pid + 1)
        } else {
            None
        },
        comm,
        cmdline,
        cwd,
        socket_inode: pid as u64 + 1_000_000,
        listen_port: if depth == 11 {
            Some(3_000u16 + pane as u16)
        } else {
            None
        },
    }
}

/// The synthetic workload: eight tabs of four panes with twelve processes each, in this
/// order.
pub fn synthetic_probe_fixture(even_agent: &str, odd_agent: &str) -> (r: SyntheticProbeFixture)
    ensures
        r.processes@.len() == 384,
        forall|k: int|
            0 <= k < 384 ==> (#[trigger] r.processes@[k]).deep_view() == synthetic_process(
                k / 48 + 1,
                (k / 12) % 4 + 1,
                k % 12,
                even_agent@,
                odd_agent@,
            ),
        r.pane_pids@.len() == 32,
        forall|k: int|
            0 <= k < 32 ==> (#[trigger] r.pane_pids@[k]) == ((k / 4 + 1) as u32, (k % 4 + 1) as u32, (
            shell_pid(k / 4 + 1, k % 4 + 1)) as i32),
        r.tab_pids@.len() == 8,
        forall|t: int|
            0 <= t < 8 ==> (#[trigger] r.tab_pids@[t]).0 == t + 1 && r.tab_pids@[t].1@ == seq![
                shell_pid(t + 1, 1) as i32,
                shell_pid(t + 1, 2) as i32,
                shell_pid(t + 1, 3) as i32,
                shell_pid(t + 1, 4) as i32,
            ],
{
    let mut processes: Vec<SyntheticProcess> = Vec::new();
    let mut k: u32 = 0;
    while k < 384
        invariant
            k <= 384,
            processes@.len() == k,
            forall|i: int|
                0 <= i < k ==> (#[trigger] processes@[i]).deep_view() == synthetic_process(
                    i / 48 + 1,
                    (i / 12) % 4 + 1,
                    i % 12,
                    even_agent@,
                    odd_agent@,
                ),
        decreases 384 - k,
    {
        processes.push(make_process(k / 48 + 1, (k / 12) % 4 + 1, k % 12, even_agent, odd_agent));
        k += 1;
    }
    let mut pane_pids: Vec<(u32, u32, i32)> = Vec::new();
    let mut k: u32 = 0;
    while k < 32
        invariant
            k <= 32,
            pane_pids@.len() == k,
            forall|i: int|
                0 <= i < k ==> (#[trigger] pane_pids@[i]) == ((i / 4 + 1) as u32, (i % 4 + 1) as u32, (
                shell_pid(i / 4 + 1, i % 4 + 1)) as i32),
        decreases 32 - k,
    {
        let tab: u32 = k / 4 + 1;
        let pane: u32 = k % 4 + 1;
        pane_pids.push((tab, pane, tab as i32 * 10_000 + pane as i32 * 100));
        k += 1;
    }
    let mut tab_pids: Vec<(u32, Vec<i32>)> = Vec::new();
    let mut t: u32 = 0;
    while t < 8
        invariant
            t <= 8,
            tab_pids@.len() == t,
            forall|i: int|
                0 <= i < t ==> (#[trigger] tab_pids@[i]).0 == i + 1 && tab_pids@[i].1@ == seq![
                    shell_pid(i + 1, 1) as i32,
                    shell_pid(i + 1, 2) as i32,
                    shell_pid(i + 1, 3) as i32,
                    shell_pid(i + 1, 4) as i32,
                ],
        decreases 8 - t,
    {
        let first: i32 = (t + 1) as i32 * 10_000;
        let mut roots: Vec<i32> = Vec::new();
        roots.push(first + 100);
        roots.push(first + 200);
        roots.push(first + 300);
        roots.push(first + 400);
        assert(roots@ =~= seq![
            shell_pid(t + 1, 1) as i32,
            shell_pid(t + 1, 2) as i32,
            shell_pid(t + 1, 3) as i32,
            shell_pid(t + 1, 4) as i32,
        ]);
        tab_pids.push((t + 1, roots));
        t += 1;
    }
    SyntheticProbeFixture { processes, tab_pids, pane_pids }
}

/// The saved form of a pane of the session fixture.
pub open spec fn leaf_json(workspace: nat, tab: nat, pane: nat) -> Seq<char> {
    "{\"cwd\":\"/workspace/"@ + text::decimal(workspace) + "/tab-"@ + text::decimal(tab)
        + "/pane-"@ + text::decimal(pane) + "\",\"type\":\"leaf\",\"work_origin\":\"pane-perf-"@
        + text::decimal(workspace) + "-"@ + text::decimal(tab) + "-"@ + text::decimal(pane)
        + "\"}"@
}

/// The saved form of two panes side by side or one over the other, each with half of the
/// space.
pub open spec fn split_json(direction: Seq<char>, first: Seq<char>, second: Seq<char>) -> Seq<
    char,
> {
    "{\"direction\":\""@ + direction + "\",\"first\":"@ + first + ",\"ratio\":0.5,\"second\":"@
        + second + ",\"type\":\"split\"}"@
}

/// The saved form of a tab of the session fixture: four panes.
pub open spec fn tab_json(workspace: nat, tab: nat) -> Seq<char> {
    "{\"cwd\":\"/workspace/"@ + text::decimal(workspace) + "/tab-"@ + text::decimal(tab)
        + "\",\"name\":\"tab-"@ + text::decimal(tab) + "\",\"panes\":"@ + split_json(
        "horizontal"@,
        split_json("vertical"@, leaf_json(workspace, tab, 0), leaf_json(workspace, tab, 1)),
        split_json("vertical"@, leaf_json(workspace, tab, 2), leaf_json(workspace, tab, 3)),
    ) + ",\"work_origin\":\"tab-perf-"@ + text::decimal(workspace) + "-"@ + text::decimal(tab)
        + "\"}"@
}

/// The saved form of a workspace of the session fixture: sixteen tabs.
pub open spec fn workspace_json(workspace: nat) -> Seq<char> {
    "{\"active_tab_index\":"@ + text::decimal(workspace % 16) + ",\"id\":"@ + text::decimal(
        workspace + 1,
    ) + ",\"name\":\"workspace-"@ + text::decimal(workspace) + "\",\"tabs\":["@ + text::joined(
        Seq::new(16, |tab: int| tab_json(workspace, tab as nat)),
        ","@,
    ) + "],\"work_origin\":\"workspace-perf-"@ + text::decimal(workspace) + "\"}"@
}

/// The saved form of a large session: eight workspaces.
pub open spec fn session_json() -> Seq<char> {
    "{\"active_workspace_index\":3,\"version\":2,\"window_height\":1000,\"window_width\":1600,\"workspaces\":["@
        + text::joined(Seq::new(8, |workspace: int| workspace_json(workspace as nat)), ","@)
        + "]}"@
}

/// Appends a number.
fn append_number(text: &mut String, number: u64)
    ensures
        final(text)@ == old(text)@ + text::decimal(number as nat),
{
    let digits = decimal_text(number);
    text.append(digits.as_str());
}

/// The saved form of a pane of the session fixture.
fn leaf_text(workspace: u64, tab: u64, pane: u64) -> (r: String)
    ensures
        r@ == leaf_json(workspace as nat, tab as nat, pane as nat),
{
    let mut r = "{\"cwd\":\"/workspace/".to_owned();
    append_number(&mut r, workspace);
    r.append("/tab-");
    append_number(&mut r, tab);
    r.append("/pane-");
    append_number(&mut r, pane);
    r.append("\",\"type\":\"leaf\",\"work_origin\":\"pane-perf-");
    append_number(&mut r, workspace);
    r.append("-");
    append_number(&mut r, tab);
    r.append("-");
    append_number(&mut r, pane);
    r.append("\"}");
    r
}

/// The saved form of two panes.
fn split_text_of(direction: &str, first: String, second: String) -> (r: String)
    ensures
        r@ == split_json(direction@, first@, second@),
{
    let mut r = "{\"direction\":\"".to_owned();
    r.append(direction);
    r.append("\",\"first\":");
    r.append(first.as_str());
    r.append(",\"ratio\":0.5,\"second\":");
    r.append(second.as_str());
    r.append(",\"type\":\"split\"}");
    r
}

/// The saved form of a tab of the session fixture.
fn tab_text(workspace: u64, tab: u64) -> (r: String)
    ensures
        r@ == tab_json(workspace as nat, tab as nat),
{
    let mut r = "{\"cwd\":\"/workspace/".to_owned();
    append_number(&mut r, workspace);
    r.append("/tab-");
    append_number(&mut r, tab);
    r.append("\",\"name\":\"tab-");
    append_number(&mut r, tab);
    r.append("\",\"panes\":");
    let left = split_text_of("vertical", leaf_text(workspace, tab, 0), leaf_text(workspace, tab, 1));
    let right = split_text_of("vertical", leaf_text(workspace, tab, 2), leaf_text(workspace, tab, 3));
    let panes = split_text_of("horizontal", left, right);
    r.append(panes.as_str());
    r.append(",\"work_origin\":\"tab-perf-");
    append_number(&mut r, workspace);
    r.append("-");
    append_number(&mut r, tab);
    r.append("\"}");
    r
}

/// The saved form of a workspace of the session fixture.
fn workspace_text(workspace: u64) -> (r: String)
    requires
        workspace < u64::MAX,
    ensures
        r@ == workspace_json(workspace as nat),
{
    let ghost all = Seq::new(16, |tab: int| tab_json(workspace as nat, tab as nat));
    let mut tabs: Vec<String> = Vec::new();
    let mut tab: u64 = 0;
    assert(tabs.deep_view() =~= all.take(0));
    while tab < 16
        invariant
            all == Seq::new(16, |tab: int| tab_json(workspace as nat, tab as nat)),
            tab <= 16,
            tabs.deep_view() == all.take(tab as int),
        decreases 16 - tab,
    {
        let saved = tab_text(workspace, tab);
        let ghost before = tabs.deep_view();
        tabs.push(saved);
        assert(tabs.deep_view() =~= before.push(saved@));
        assert(tabs.deep_view() =~= all.take(tab + 1));
        tab += 1;
    }
    assert(all.take(16) =~= all);
    let mut r = "{\"active_tab_index\":".to_owned();
    append_number(&mut r, workspace % 16);
    r.append(",\"id\":");
    append_number(&mut r, workspace + 1);
    r.append(",\"name\":\"workspace-");
    append_number(&mut r, workspace);
    r.append("\",\"tabs\":[");
    let joined = join_texts(&tabs, ",");
    r.append(joined.as_str());
    r.append("],\"work_origin\":\"workspace-perf-");
    append_number(&mut r, workspace);
    r.append("\"}");
    r
}

/// The saved form of a large session, for measurements: eight workspaces with sixteen tabs
/// of four panes each.
pub fn session_json_fixture() -> (r: String)
    ensures
        r@ == session_json(),
{
    let ghost all = Seq::new(8, |workspace: int| workspace_json(workspace as nat));
    let mut workspaces: Vec<String> = Vec::new();
    let mut workspace: u64 = 0;
    assert(workspaces.deep_view() =~= all.take(0));
    while workspace < 8
        invariant
            all == Seq::new(8, |workspace: int| workspace_json(workspace as nat)),
            workspace <= 8,
            workspaces.deep_view() == all.take(workspace as int),
        decreases 8 - workspace,
    {
        let saved = workspace_text(workspace);
        let ghost before = workspaces.deep_view();
        workspaces.push(saved);
        assert(workspaces.deep_view() =~= before.push(saved@));
        assert(workspaces.deep_view() =~= all.take(workspace + 1));
        workspace += 1;
    }
    assert(all.take(8) =~= all);
    let mut r = "{\"active_workspace_index\":3,\"version\":2,\"window_height\":1000,\"window_width\":1600,\"workspaces\":[".to_owned();
    let joined = join_texts(&workspaces, ",");
    r.append(joined.as_str());
    r.append("]}");
    r
}

/// The checksum is the 64-bit Fowler-Noll-Vo hash in its xor-first form. It starts
/// at 14695981039346656037, an empty field leaves it as it is, and each byte is mixed in by
/// an exclusive or before the product with 1099511628211, of which the low 64 bits stay.
pub proof fn law_the_checksum_is_fnv_1a(h: u64, bytes: Seq<u8>, byte: u8)
    ensures
        OFFSET_BASIS == 14695981039346656037,
        fnv(h, Seq::empty()) == h,
        fnv(h, bytes.push(byte)) as int == ((fnv(h, bytes) ^ (byte as u64)) as int * 1099511628211)
            % 0x1_0000_0000_0000_0000,
{
    assert(bytes.push(byte).drop_last() =~= bytes);
    assert(PRIME == 1099511628211);
}

/// A number is written as eight bytes, the least first.
pub proof fn law_numbers_are_eight_bytes_least_first(v: u64)
    ensures
        le_bytes(v).len() == 8,
        v as int == le_bytes(v)[0] + 0x100 * le_bytes(v)[1] + 0x1_0000 * le_bytes(v)[2]
            + 0x100_0000 * le_bytes(v)[3] + 0x1_0000_0000 * le_bytes(v)[4] + 0x100_0000_0000
            * le_bytes(v)[5] + 0x1_0000_0000_0000 * le_bytes(v)[6] + 0x100_0000_0000_0000
            * le_bytes(v)[7],
{
    assert(v == ((v & 0xff) as u8) + 0x100 * (((v >> 8u64) & 0xff) as u8) + 0x1_0000 * (((v
        >> 16u64) & 0xff) as u8) + 0x100_0000 * (((v >> 24u64) & 0xff) as u8) + 0x1_0000_0000 * (((v
        >> 32u64) & 0xff) as u8) + 0x100_0000_0000 * (((v >> 40u64) & 0xff) as u8)
        + 0x1_0000_0000_0000 * (((v >> 48u64) & 0xff) as u8) + 0x100_0000_0000_0000 * (((v
        >> 56u64) & 0xff) as u8)) by (bit_vector);
}

/// A flag is the number 1 or 0. A process id is widened with its sign. A text
/// comes behind the number of its bytes, and a text that may be missing behind a flag that
/// says whether it is there.
pub proof fn law_fields_as_bytes(b: bool, pid: i32, s: Seq<char>)
    ensures
        flag_bytes(true) == le_bytes(1),
        flag_bytes(false) == le_bytes(0),
        pid >= 0 ==> int_bytes(pid) == le_bytes(pid as u64),
        pid < 0 ==> int_bytes(pid) == le_bytes((0x1_0000_0000_0000_0000 + pid) as u64),
        text_bytes(s) == le_bytes(vstd::utf8::encode_utf8(s).len() as u64)
            + vstd::utf8::encode_utf8(s),
        optional_text_bytes(None) == le_bytes(0),
        optional_text_bytes(Some(s)) == le_bytes(1) + text_bytes(s),
{
    let wide = pid as i64;
    assert(wide >= 0 ==> wide as u64 == wide) by (bit_vector);
    assert(wide < 0 && wide >= -0x8000_0000 ==> wide as u64 == 0x1_0000_0000_0000_0000 + wide)
        by (bit_vector);
}

/// A list of process ids, of ports or of texts is its items' bytes, one after the
/// other.
pub proof fn law_lists_as_bytes(
    pids: Seq<i32>,
    pid: i32,
    ports: Seq<u16>,
    port: u16,
    texts: Seq<Seq<char>>,
    s: Seq<char>,
)
    ensures
        ints_bytes(Seq::empty()) == Seq::<u8>::empty(),
        ints_bytes(pids.push(pid)) == ints_bytes(pids) + int_bytes(pid),
        ports_bytes(Seq::empty()) == Seq::<u8>::empty(),
        ports_bytes(ports.push(port)) == ports_bytes(ports) + le_bytes(port as u64),
        texts_bytes(Seq::empty()) == Seq::<u8>::empty(),
        texts_bytes(texts.push(s)) == texts_bytes(texts) + text_bytes(s),
{
    assert(pids.push(pid).drop_last() =~= pids);
    assert(ports.push(port).drop_last() =~= ports);
    assert(texts.push(s).drop_last() =~= texts);
}

/// Every entry starts with the tab it is about, then the pane where it is about
/// one, and holds the rest in one order: the count before what is counted, an agent's name
/// before its session and whether it runs, and of a process the child, the remote shell and
/// the arguments of SSH, whose count is one more than their number where there are any.
pub proof fn law_entries_as_bytes(
    tab: u32,
    pane: u32,
    pid: i32,
    pids: Vec<i32>,
    ports: Vec<u16>,
    status: AgentStatus,
    process: PaneProcessState,
    args: Seq<Seq<char>>,
)
    ensures
        tab_pids_entry((tab, pids)) == le_bytes(tab as u64) + le_bytes(pids@.len() as u64)
            + ints_bytes(pids@),
        pane_pid_entry(((tab, pane), pid)) == le_bytes(tab as u64) + le_bytes(pane as u64)
            + int_bytes(pid),
        tab_ports_entry((tab, ports)) == le_bytes(tab as u64) + le_bytes(ports@.len() as u64)
            + ports_bytes(ports@),
        tab_agent_entry((tab, status)) == le_bytes(tab as u64) + optional_text_bytes(
            status.agent_name.deep_view(),
        ) + optional_text_bytes(status.session_id.deep_view()) + flag_bytes(status.running),
        pane_agent_entry(((tab, pane), status)) == le_bytes(tab as u64) + le_bytes(pane as u64)
            + optional_text_bytes(status.agent_name.deep_view()) + optional_text_bytes(
            status.session_id.deep_view(),
        ) + flag_bytes(status.running),
        process_entry(((tab, pane), process)) == le_bytes(tab as u64) + le_bytes(pane as u64)
            + flag_bytes(process.has_child_process) + flag_bytes(process.remote_shell) + ssh_bytes(
            process.ssh_command.deep_view(),
        ),
        ssh_bytes(None) == le_bytes(0),
        args.len() < u64::MAX ==> ssh_bytes(Some(args)) == le_bytes((args.len() + 1) as u64)
            + texts_bytes(args),
{
    assert(tab_pids_entry((tab, pids)) =~= le_bytes(tab as u64) + le_bytes(pids@.len() as u64)
        + ints_bytes(pids@));
    assert(tab_agent_entry((tab, status)) =~= le_bytes(tab as u64) + optional_text_bytes(
        status.agent_name.deep_view(),
    ) + optional_text_bytes(status.session_id.deep_view()) + flag_bytes(status.running));
    assert(pane_agent_entry(((tab, pane), status)) =~= le_bytes(tab as u64) + le_bytes(pane as u64)
        + optional_text_bytes(status.agent_name.deep_view()) + optional_text_bytes(
        status.session_id.deep_view(),
    ) + flag_bytes(status.running));
    if args.len() < u64::MAX {
        assert((args.len() as u64).wrapping_add(1) == (args.len() + 1) as u64);
    }
}

/// A round in which nothing was found is the six labels alone, in the order of the
/// process ids of tabs and panes, the agents of panes and tabs, the ports and the processes.
pub proof fn law_an_empty_round_is_its_labels(snapshot: RuntimeProbeSnapshot)
    requires
        snapshot.tab_pids@.len() == 0,
        snapshot.pane_pids@.len() == 0,
        snapshot.pane_agents@.len() == 0,
        snapshot.tab_agents@.len() == 0,
        snapshot.tab_ports@.len() == 0,
        snapshot.pane_process_states@.len() == 0,
    ensures
        snapshot_bytes(snapshot) == text_bytes("tab-pids"@) + text_bytes("pane-pids"@)
            + text_bytes("pane-agents"@) + text_bytes("tab-agents"@) + text_bytes("tab-ports"@)
            + text_bytes("pane-process-states"@),
{
    ordering::lemma_sorted_items(snapshot.pane_agents@, pane_agent_rank());
    ordering::lemma_sorted_items(snapshot.tab_agents@, tab_agent_rank());
    ordering::lemma_sorted_items(snapshot.tab_ports@, tab_ports_rank());
    ordering::lemma_sorted_items(snapshot.pane_process_states@, process_rank());
    assert(tab_pids_part(snapshot) =~= text_bytes("tab-pids"@));
    assert(pane_pids_part(snapshot) =~= text_bytes("pane-pids"@));
    assert(pane_agents_part(snapshot) =~= text_bytes("pane-agents"@));
    assert(tab_agents_part(snapshot) =~= text_bytes("tab-agents"@));
    assert(tab_ports_part(snapshot) =~= text_bytes("tab-ports"@));
    assert(processes_part(snapshot) =~= text_bytes("pane-process-states"@));
}

/// One more process id, at the end of its list, adds its entry behind the others.
pub proof fn law_process_ids_follow_each_other(
    a: RuntimeProbeSnapshot,
    b: RuntimeProbeSnapshot,
    of_tab: (u32, Vec<i32>),
    of_pane: ((u32, u32), i32),
)
    ensures
        b.tab_pids@ == a.tab_pids@.push(of_tab) ==> tab_pids_part(b) == tab_pids_part(a)
            + tab_pids_entry(of_tab),
        b.pane_pids@ == a.pane_pids@.push(of_pane) ==> pane_pids_part(b) == pane_pids_part(a)
            + pane_pid_entry(of_pane),
{
    assert(a.tab_pids@.push(of_tab).drop_last() =~= a.tab_pids@);
    assert(a.pane_pids@.push(of_pane).drop_last() =~= a.pane_pids@);
    if b.tab_pids@ == a.tab_pids@.push(of_tab) {
        assert(tab_pids_part(b) =~= tab_pids_part(a) + tab_pids_entry(of_tab));
    }
    if b.pane_pids@ == a.pane_pids@.push(of_pane) {
        assert(pane_pids_part(b) =~= pane_pids_part(a) + pane_pid_entry(of_pane));
    }
}

/// The checksums of a workload's rounds are added up, and only the low 64 bits of
/// the sum stay.
pub proof fn law_checksums_add_up(checksums: Seq<u64>, checksum: u64)
    ensures
        checksum_sum(Seq::empty()) == 0,
        checksum_sum(checksums.push(checksum)) as int == (checksum_sum(checksums) + checksum)
            % 0x1_0000_0000_0000_0000,
{
    assert(checksums.push(checksum).drop_last() =~= checksums);
}

/// Panes are ranked by their tab first and by their own id within it.
pub proof fn law_panes_rank_by_tab_first(a: (u32, u32), b: (u32, u32))
    ensures
        a.0 < b.0 ==> pane_rank(a.0, a.1) < pane_rank(b.0, b.1),
        a.0 == b.0 ==> (pane_rank(a.0, a.1) < pane_rank(b.0, b.1) <==> a.1 < b.1),
        pane_rank(a.0, a.1) == pane_rank(b.0, b.1) ==> a == b,
{
}

/// An item that ranks behind all others ends the sorted list's bytes.
proof fn lemma_ranked_last<T>(
    items: Seq<T>,
    item: T,
    key: spec_fn(T) -> int,
    bytes: spec_fn(T) -> Seq<u8>,
)
    requires
        forall|i: int| 0 <= i < items.len() ==> key(#[trigger] items[i]) <= key(item),
    ensures
        items_bytes(ordering::sorted_by_key(items.push(item), key), bytes) == items_bytes(
            ordering::sorted_by_key(items, key),
            bytes,
        ) + bytes(item),
{
    let sorted = ordering::sorted_by_key(items, key);
    ordering::lemma_sorted_items(items, key);
    assert forall|i: int| 0 <= i < sorted.len() implies key(#[trigger] sorted[i]) <= key(item) by {
        broadcast use vstd::seq_lib::group_to_multiset_ensures;

        assert(sorted.contains(sorted[i]));
        assert(sorted.to_multiset().count(sorted[i]) > 0);
        assert(items.to_multiset().count(sorted[i]) > 0);
        assert(items.contains(sorted[i]));
    }
    ordering::law_equal_items_keep_their_order(items, item, key);
    assert(sorted.push(item).drop_last() =~= sorted);
}

/// Findings follow each other by their tab, and within it by their pane: one that
/// stands behind all others by that order adds its entry at the end of its part.
pub proof fn law_findings_follow_each_other_by_rank(
    a: RuntimeProbeSnapshot,
    b: RuntimeProbeSnapshot,
    pane_agent: ((u32, u32), AgentStatus),
    tab_agent: (u32, AgentStatus),
    ports: (u32, Vec<u16>),
    process: ((u32, u32), PaneProcessState),
)
    requires
        b.pane_agents@ == a.pane_agents@.push(pane_agent),
        b.tab_agents@ == a.tab_agents@.push(tab_agent),
        b.tab_ports@ == a.tab_ports@.push(ports),
        b.pane_process_states@ == a.pane_process_states@.push(process),
        forall|i: int|
            0 <= i < a.pane_agents@.len() ==> (#[trigger] a.pane_agents@[i]).0.0 < pane_agent.0.0
                || a.pane_agents@[i].0.0 == pane_agent.0.0 && a.pane_agents@[i].0.1
                < pane_agent.0.1,
        forall|i: int|
            0 <= i < a.tab_agents@.len() ==> (#[trigger] a.tab_agents@[i]).0 < tab_agent.0,
        forall|i: int| 0 <= i < a.tab_ports@.len() ==> (#[trigger] a.tab_ports@[i]).0 < ports.0,
        forall|i: int|
            0 <= i < a.pane_process_states@.len() ==> (
            #[trigger] a.pane_process_states@[i]).0.0 < process.0.0
                || a.pane_process_states@[i].0.0 == process.0.0 && a.pane_process_states@[i].0.1
                < process.0.1,
    ensures
        pane_agents_part(b) == pane_agents_part(a) + pane_agent_entry(pane_agent),
        tab_agents_part(b) == tab_agents_part(a) + tab_agent_entry(tab_agent),
        tab_ports_part(b) == tab_ports_part(a) + tab_ports_entry(ports),
        processes_part(b) == processes_part(a) + process_entry(process),
{
    let of_pane_agent = |e: ((u32, u32), AgentStatus)| pane_agent_entry(e);
    lemma_ranked_last(a.pane_agents@, pane_agent, pane_agent_rank(), of_pane_agent);
    assert(pane_agents_part(b) =~= pane_agents_part(a) + pane_agent_entry(pane_agent));
    let of_tab_agent = |e: (u32, AgentStatus)| tab_agent_entry(e);
    lemma_ranked_last(a.tab_agents@, tab_agent, tab_agent_rank(), of_tab_agent);
    assert(tab_agents_part(b) =~= tab_agents_part(a) + tab_agent_entry(tab_agent));
    let of_ports = |e: (u32, Vec<u16>)| tab_ports_entry(e);
    lemma_ranked_last(a.tab_ports@, ports, tab_ports_rank(), of_ports);
    assert(tab_ports_part(b) =~= tab_ports_part(a) + tab_ports_entry(ports));
    let of_process = |e: ((u32, u32), PaneProcessState)| process_entry(e);
    lemma_ranked_last(a.pane_process_states@, process, process_rank(), of_process);
    assert(processes_part(b) =~= processes_part(a) + process_entry(process));
}

/// The made-up processes of a pane stand in a chain of twelve: each but the last
/// has the next as its child. The first is the pane's shell and knows the tab's directory;
/// the second is the agent, one for even panes and one for odd ones; the last listens on
/// port 3000 plus the pane's number; all others are workers.
pub proof fn law_synthetic_processes(
    tab: int,
    pane: int,
    depth: int,
    even_agent: Seq<char>,
    odd_agent: Seq<char>,
)
    requires
        0 <= tab,
        0 <= pane,
        0 <= depth <= 11,
    ensures
        ({
            let process = synthetic_process(tab, pane, depth, even_agent, odd_agent);
            let next = synthetic_process(tab, pane, depth + 1, even_agent, odd_agent);
            &&& process.pid == 10_000 * tab + 100 * pane + depth
            &&& process.socket_inode == process.pid + 1_000_000
            &&& depth < 11 ==> process.child == Some(next.pid) && process.listen_port is None
            &&& depth == 11 ==> process.child is None && process.listen_port == Some(3_000 + pane)
            &&& depth == 0 ==> process.cwd == Some("/workspace/tab-"@ + text::decimal(tab as nat))
            &&& depth > 0 ==> process.cwd is None
            &&& depth == 1 && pane % 2 == 0 ==> process.comm == even_agent
            &&& depth == 1 && pane % 2 == 1 ==> process.comm == odd_agent
            &&& depth != 1 ==> process.comm == "worker"@
            &&& process.cmdline.len() == 2
            &&& process.cmdline[0] == process.comm
            &&& process.cmdline[1] == "--fixture="@ + text::decimal(tab as nat) + "-"@
                + text::decimal(pane as nat) + "-"@ + text::decimal(depth as nat)
        }),
{
}

/// One more round adds the checksum of what it found to the result.
pub proof fn law_rounds_add_up(rounds: Seq<RuntimeProbeSnapshot>, round: RuntimeProbeSnapshot)
    ensures
        checksum_sum(round_checksums(Seq::empty())) == 0,
        checksum_sum(round_checksums(rounds.push(round))) as int == (checksum_sum(
            round_checksums(rounds),
        ) + fnv(14695981039346656037, snapshot_bytes(round))) % 0x1_0000_0000_0000_0000,
{
    let more = round_checksums(rounds.push(round));
    assert(more.drop_last() =~= round_checksums(rounds));
    assert(more.last() == fnv(14695981039346656037, snapshot_bytes(round)));
}

} // verus!
