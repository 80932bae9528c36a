//! Mapping records: parsing the kernel's mapping table into [`Mapping`]
//! values, and the two-step protocol for changing a live mapping's
//! protection.
//!
//! Each line of the table reads
//! `<start>-<end> <perms> <offset> <dev> <inode> [path]`, whitespace
//! delimited, with the addresses in lowercase hexadecimal and the path
//! optional and possibly containing spaces.  A malformed line is reported
//! and skipped; it never aborts the scan of the whole table.
//!
//! The protection change itself is a system call that this crate does not
//! make: [`Mapping::begin_set_permissions`] validates a request and hands
//! back the address range and native flag word for the caller to pass on,
//! and [`Mapping::finish_set_permissions`] folds the call's outcome back
//! into the record.

use vstd::prelude::*;
use vstd::string::*;

use crate::hex::hex_render;
use crate::hex::hex_value;
use crate::hex::is_hex_string;
use crate::hex::parse_hex_u64;
use crate::hex::to_hex_string;
use crate::perms::PermissionSet;
use crate::perms::native_flags_of;
use crate::perms::parse_perms;
use crate::perms::render_perms;
use crate::text::fields_of;
use crate::text::join_with_spaces;
use crate::text::split_fields;

verus! {

/// One contiguous range of the process's virtual address space, as one
/// line of the mapping table reports it: start and exclusive end address,
/// access permissions, and a path — a filesystem path for file-backed
/// mappings, a bracketed pseudo-name such as `[stack]` for kernel-managed
/// regions, or empty for anonymous ones.
///
/// A snapshot of mappings is point-in-time: it goes stale the moment the
/// address space changes, and nothing here re-reads the kernel.
#[derive(Clone, Debug)]
pub struct Mapping {
    pub start_addr: u64,
    pub end_addr: u64,
    pub permissions: PermissionSet,
    pub path: String,
}

/// The mathematical content of a [`Mapping`]: its fields, with the path as
/// a character sequence.
pub ghost struct MappingModel {
    pub start: u64,
    pub end: u64,
    pub perms: PermissionSet,
    pub path: Seq<char>,
}

impl View for Mapping {
    type V = MappingModel;

    open spec fn view(&self) -> MappingModel {
        MappingModel {
            start: self.start_addr,
            end: self.end_addr,
            perms: self.permissions,
            path: self.path@,
        }
    }
}

impl DeepView for Mapping {
    type V = MappingModel;

    open spec fn deep_view(&self) -> MappingModel {
        self.view()
    }
}

/// Why one line of the mapping table was dropped.  Such a line only costs
/// itself: the scan reports it and goes on.
#[derive(Clone, Copy, Debug, PartialEq, Eq, Structural)]
pub enum LineError {
    /// The line has fewer than the five mandatory fields.
    NotEnoughFields { found: usize },
    /// The first field does not split at a single `-` into two
    /// hexadecimal addresses that fit in 64 bits.
    BadAddressRange,
    /// The addresses parsed but the range is empty: the end address does
    /// not exceed the start address.
    EmptyRange,
}

/// Why a protection-change request failed.  Such a failure is fatal to
/// that one request only, never to a batch over other mappings.
#[derive(Clone, Copy, Debug, PartialEq, Eq, Structural)]
pub enum PermissionError {
    /// The mapping's start address is null; no system call was attempted.
    NullAddress,
    /// The protection-change system call rejected the range; carries the
    /// start address and the native error number for diagnosis.
    ProtectFailed { addr: u64, errno: i32 },
}

/// A validated protection-change request, ready to hand to the
/// protection-change system call: a page-aligned start address, a length
/// in bytes, and the native protection flag word.
#[derive(Clone, Copy, Debug, PartialEq, Eq, Structural)]
pub struct ProtRequest {
    pub addr: u64,
    pub len: u64,
    pub prot: i32,
}

/// Whether the first field splits at position `i` into two well-formed
/// 64-bit hexadecimal addresses.  Hexadecimal digits exclude `-`, so at
/// most one position can qualify.
pub open spec fn splits_addresses_at(t: Seq<char>, i: int) -> bool {
    &&& 0 <= i < t.len()
    &&& t[i] == '-'
    &&& is_hex_string(t.take(i))
    &&& hex_value(t.take(i)) <= u64::MAX
    &&& is_hex_string(t.skip(i + 1))
    &&& hex_value(t.skip(i + 1)) <= u64::MAX
}

/// The address pair of a range field, if the field is exactly two
/// parseable 64-bit hexadecimal numerals separated by one `-`.
pub open spec fn addr_range_of(t: Seq<char>) -> Option<(u64, u64)> {
    if exists|i: int| splits_addresses_at(t, i) {
        let i = choose|i: int| splits_addresses_at(t, i);
        Some(((hex_value(t.take(i)) as u64), (hex_value(t.skip(i + 1)) as u64)))
    } else {
        None
    }
}

/// The path of a parsed line: every field from the sixth onward, rejoined
/// with single spaces; empty when the line has exactly five fields.
pub open spec fn path_of_fields(f: Seq<Seq<char>>) -> Seq<char>
    recommends
        f.len() >= 5,
{
    if f.len() > 5 {
        join_with_spaces(f.skip(5))
    } else {
        Seq::empty()
    }
}

/// What one line of the mapping table yields: a mapping model, or the
/// reason the line is dropped.
pub open spec fn line_result(s: Seq<char>) -> Result<MappingModel, LineError> {
    let f = fields_of(s);
    if f.len() < 5 {
        Err(LineError::NotEnoughFields { found: f.len() as usize })
    } else {
        match addr_range_of(f[0]) {
            None => Err(LineError::BadAddressRange),
            Some((lo, hi)) => {
                if lo < hi {
                    Ok(
                        MappingModel {
                            start: lo,
                            end: hi,
                            perms: parse_perms(f[1]),
                            path: path_of_fields(f),
                        },
                    )
                } else {
                    Err(LineError::EmptyRange)
                }
            },
        }
    }
}

/// What a whole table yields: the models of the well-formed lines in
/// table order, and the error of each dropped line in table order.
pub open spec fn table_result(lines: Seq<Seq<char>>) -> (Seq<MappingModel>, Seq<LineError>)
    decreases lines.len(),
{
    if lines.len() == 0 {
        (Seq::empty(), Seq::empty())
    } else {
        let (ms, es) = table_result(lines.drop_last());
        match line_result(lines.last()) {
            Ok(m) => (ms.push(m), es),
            Err(e) => (ms, es.push(e)),
        }
    }
}

/// At most one position splits a range field into two hexadecimal
/// numerals: a numeral contains no `-`.
proof fn lemma_split_position_unique(t: Seq<char>, i: int, j: int)
    requires
        splits_addresses_at(t, i),
        splits_addresses_at(t, j),
    ensures
        i == j,
{
    if i < j {
        assert(t.skip(i + 1)[j - i - 1] == '-');
    }
    if j < i {
        assert(t.skip(j + 1)[i - j - 1] == '-');
    }
}

impl Mapping {
    /// A well-formed mapping covers at least one byte: its exclusive end
    /// address exceeds its start address.
    pub open spec fn wf(&self) -> bool {
        self.start_addr < self.end_addr
    }

    /// Builds a mapping record from its raw parts, parsing the textual
    /// permission field.  Zero-length mappings are never constructed, so
    /// the end address must exceed the start address.
    pub fn new(start_addr: u64, end_addr: u64, permissions: String, path: String) -> (r: Mapping)
        requires
            start_addr < end_addr,
        ensures
            r@.start == start_addr,
            r@.end == end_addr,
            r@.perms == parse_perms(permissions@),
            r@.path == path@,
            r.wf(),
    {
        Mapping {
            start_addr,
            end_addr,
            permissions: PermissionSet::from(permissions.as_str()),
            path,
        }
    }

    /// The size of the mapping in bytes: end minus start, always positive
    /// on a well-formed mapping.
    pub fn size(&self) -> (r: u64)
        requires
            self.wf(),
        ensures
            r == self.end_addr - self.start_addr,
            r > 0,
    {
        self.end_addr - self.start_addr
    }

    /// Whether this is a special kernel-managed mapping, recognized by its
    /// bracketed pseudo-name (`[stack]`, `[heap]`, `[vdso]`, ...).  A
    /// reclassification pass must skip these before requesting a
    /// protection change: the kernel may reject the change or destabilize
    /// the process.
    pub fn is_special(&self) -> (r: bool)
        ensures
            r == (self.path@.len() > 0 && self.path@[0] == '['),
    {
        proof {
            reveal_strlit("[");
        }
        let p: &str = self.path.as_str();
        p.unicode_len() > 0 && p.get_char(0) == '['
    }

    /// Validates a protection-change request on this mapping and, when the
    /// start address is non-null, yields the exact range and native flag
    /// word to hand to the protection-change system call.  A null start
    /// address fails here, before any system call is attempted.
    pub fn begin_set_permissions(&self, new_perms: &PermissionSet) -> (r: Result<
        ProtRequest,
        PermissionError,
    >)
        requires
            self.wf(),
        ensures
            self.start_addr == 0 ==> r == Err::<ProtRequest, PermissionError>(
                PermissionError::NullAddress,
            ),
            self.start_addr != 0 ==> r == Ok::<ProtRequest, PermissionError>(
                ProtRequest {
                    addr: self.start_addr,
                    len: (self.end_addr - self.start_addr) as u64,
                    prot: native_flags_of(*new_perms) as i32,
                },
            ),
    {
        if self.start_addr == 0 {
            Err(PermissionError::NullAddress)
        } else {
            Ok(
                ProtRequest {
                    addr: self.start_addr,
                    len: self.size(),
                    prot: new_perms.to_native_flags(),
                },
            )
        }
    }

    /// Folds the outcome of the protection-change system call back into
    /// the record.  On success the in-memory permissions become the
    /// requested set — the record then reflects the caller's intent, not a
    /// re-read of the kernel.  On failure the record is unchanged and the
    /// error carries the start address and the native error number.
    pub fn finish_set_permissions(&mut self, new_perms: PermissionSet, outcome: Result<
        (),
        i32,
    >) -> (r: Result<(), PermissionError>)
        ensures
            outcome is Ok ==> {
                &&& r == Ok::<(), PermissionError>(())
                &&& final(self).start_addr == old(self).start_addr
                &&& final(self).end_addr == old(self).end_addr
                &&& final(self).permissions == new_perms
                &&& final(self).path == old(self).path
            },
            outcome matches Err(errno) ==> {
                &&& r == Err::<(), PermissionError>(
                    PermissionError::ProtectFailed { addr: old(self).start_addr, errno },
                )
                &&& *final(self) == *old(self)
            },
    {
        match outcome {
            Ok(()) => {
                self.permissions = new_perms;
                Ok(())
            },
            Err(errno) => Err(PermissionError::ProtectFailed { addr: self.start_addr, errno }),
        }
    }

    /// The display form of the mapping:
    /// `Mapping(0x<start>-0x<end>, perms=<rwx>, path=<path>)`, with the
    /// addresses in lowercase hexadecimal without leading zeros.
    pub fn display_string(&self) -> (r: String)
        ensures
            r@ == "Mapping(0x"@ + hex_render(self.start_addr as nat) + "-0x"@ + hex_render(
                self.end_addr as nat,
            ) + ", perms="@ + render_perms(self.permissions) + ", path="@ + self.path@ + ")"@,
    {
        let mut out = String::from_str("Mapping(0x");
        out.append(to_hex_string(self.start_addr).as_str());
        out.append("-0x");
        out.append(to_hex_string(self.end_addr).as_str());
        out.append(", perms=");
        out.append(self.permissions.display_string().as_str());
        out.append(", path=");
        out.append(self.path.as_str());
        out.append(")");
        out
    }
}

/// Finds the position of the first `-` in the text, if any.
fn find_dash(t: &str) -> (r: Option<usize>)
    ensures
        r matches Some(i) ==> i < t@.len() && t@[i as int] == '-' && (forall|j: int|
            0 <= j < i ==> t@[j] != '-'),
        r is None ==> forall|j: int| 0 <= j < t@.len() ==> t@[j] != '-',
{
    let n: usize = t.unicode_len();
    let mut i: usize = 0;
    while i < n
        invariant
            t@.len() == n as nat,
            i <= n,
            forall|j: int| 0 <= j < i ==> t@[j] != '-',
        decreases n - i,
    {
        if t.get_char(i) == '-' {
            return Some(i);
        }
        i = i + 1;
    }
    None
}

/// Parses a range field into its two addresses.  Succeeds exactly when
/// the field is two parseable 64-bit hexadecimal numerals separated by a
/// single `-`; any other shape — no dash, an empty side, a stray
/// character, a third part, an overflowing value — yields nothing.
pub fn parse_addr_range(t: &str) -> (r: Option<(u64, u64)>)
    ensures
        r == addr_range_of(t@),
{
    match find_dash(t) {
        None => {
            proof {
                assert(forall|i: int| !splits_addresses_at(t@, i));
            }
            None
        },
        Some(d) => {
            let n: usize = t.unicode_len();
            let left: &str = t.substring_char(0, d);
            let right: &str = t.substring_char(d + 1, n);
            proof {
                assert(left@ =~= t@.take(d as int));
                assert(right@ =~= t@.skip(d as int + 1));
            }
            match (parse_hex_u64(left), parse_hex_u64(right)) {
                (Some(lo), Some(hi)) => {
                    proof {
                        assert(splits_addresses_at(t@, d as int));
                        let i = choose|i: int| splits_addresses_at(t@, i);
                        lemma_split_position_unique(t@, i, d as int);
                    }
                    Some((lo, hi))
                },
                _ => {
                    proof {
                        if exists|i: int| splits_addresses_at(t@, i) {
                            let i = choose|i: int| splits_addresses_at(t@, i);
                            if i != d {
                                assert(t@.take(i)[d as int] == '-');
                            }
                        }
                    }
                    None
                },
            }
        },
    }
}

/// Parses one line of the mapping table into a mapping record, or says
/// why the line is dropped: too few fields, a bad address-range field, or
/// an empty range.
pub fn parse_maps_line(line: &str) -> (r: Result<Mapping, LineError>)
    ensures
        r matches Ok(m) ==> line_result(line@) == Ok::<MappingModel, LineError>(m@) && m.wf(),
        r matches Err(e) ==> line_result(line@) == Err::<MappingModel, LineError>(e),
{
    let fields: Vec<String> = split_fields(line);
    proof {
        assert(fields.deep_view().len() == fields@.len());
    }
    if fields.len() < 5 {
        return Err(LineError::NotEnoughFields { found: fields.len() });
    }
    let range = parse_addr_range(fields[0].as_str());
    proof {
        assert(fields.deep_view()[0] == fields@[0]@);
        assert(fields.deep_view()[1] == fields@[1]@);
    }
    match range {
        None => Err(LineError::BadAddressRange),
        Some((lo, hi)) => {
            if lo < hi {
                let path = join_path_fields(&fields);
                let m = Mapping::new(lo, hi, fields[1].clone(), path);
                Ok(m)
            } else {
                Err(LineError::EmptyRange)
            }
        },
    }
}

/// Rejoins the path fields (the sixth and later) with single spaces;
/// yields the empty string when the line had no path field.
fn join_path_fields(fields: &Vec<String>) -> (r: String)
    requires
        fields@.len() >= 5,
    ensures
        r@ == path_of_fields(fields.deep_view()),
{
    let mut out = String::new();
    if fields.len() <= 5 {
        proof {
            assert(out@ =~= path_of_fields(fields.deep_view()));
        }
        return out;
    }
    out.append(fields[5].as_str());
    let ghost tail = fields.deep_view().skip(5);
    proof {
        assert(tail.take(1) =~= seq![fields.deep_view()[5]]);
        assert(out@ == join_with_spaces(tail.take(1)));
    }
    let mut k: usize = 6;
    while k < fields.len()
        invariant
            6 <= k <= fields@.len(),
            fields@.len() > 5,
            tail == fields.deep_view().skip(5),
            fields.deep_view().len() == fields@.len(),
            out@ == join_with_spaces(tail.take(k - 5)),
        decreases fields@.len() - k,
    {
        out.append(" ");
        out.append(fields[k].as_str());
        proof {
            reveal_strlit(" ");
            let upto = tail.take(k - 5 + 1);
            assert(upto.drop_last() =~= tail.take(k - 5));
            assert(upto.last() == fields.deep_view()[k as int]);
            assert(out@ =~= join_with_spaces(upto));
        }
        k = k + 1;
    }
    proof {
        assert(tail.take(fields@.len() - 5) =~= tail);
    }
    out
}

/// Scans a whole mapping table, one line per entry: yields the records of
/// the well-formed lines in table order, and one diagnostic per dropped
/// line, also in order.  A malformed line never aborts the scan.
pub fn parse_maps_table(lines: &Vec<String>) -> (r: (Vec<Mapping>, Vec<LineError>))
    ensures
        r.0.deep_view() == table_result(lines.deep_view()).0,
        r.1@ == table_result(lines.deep_view()).1,
        forall|i: int| 0 <= i < r.0@.len() ==> (#[trigger] r.0@[i]).wf(),
{
    let mut mappings: Vec<Mapping> = Vec::new();
    let mut errors: Vec<LineError> = Vec::new();
    proof {
        assert(mappings.deep_view() =~= Seq::<MappingModel>::empty());
        assert(lines.deep_view().take(0) =~= Seq::<Seq<char>>::empty());
    }
    let mut k: usize = 0;
    while k < lines.len()
        invariant
            k <= lines@.len(),
            lines.deep_view().len() == lines@.len(),
            mappings.deep_view() == table_result(lines.deep_view().take(k as int)).0,
            errors@ == table_result(lines.deep_view().take(k as int)).1,
            forall|i: int| 0 <= i < mappings@.len() ==> (#[trigger] mappings@[i]).wf(),
        decreases lines@.len() - k,
    {
        let ghost upto = lines.deep_view().take(k as int + 1);
        proof {
            assert(upto.drop_last() =~= lines.deep_view().take(k as int));
            assert(upto.last() == lines.deep_view()[k as int]);
        }
        match parse_maps_line(lines[k].as_str()) {
            Ok(m) => {
                let ghost before = mappings.deep_view();
                mappings.push(m);
                proof {
                    assert(mappings.deep_view() =~= before.push(m@));
                }
            },
            Err(e) => {
                errors.push(e);
            },
        }
        k = k + 1;
    }
    proof {
        assert(lines.deep_view().take(lines@.len() as int) =~= lines.deep_view());
    }
    (mappings, errors)
}

} // verus!
