//! The permission model: read/write/execute flag sets for memory mappings.
//!
//! A [`PermissionSet`] is three independent booleans.  It is parsed from the
//! textual notation of the kernel's mapping table (`r-xp` and the like),
//! rendered back as the fixed three-character `rwx` display form, and
//! translated to and from the native protection bitmask handed to the
//! protection-change system call.

use vstd::prelude::*;
use vstd::string::*;

verus! {

/// The native protection bit for read access (`PROT_READ` on POSIX systems).
pub const PROT_READ_BIT: i32 = 1;

/// The native protection bit for write access (`PROT_WRITE` on POSIX systems).
pub const PROT_WRITE_BIT: i32 = 2;

/// The native protection bit for execute access (`PROT_EXEC` on POSIX systems).
pub const PROT_EXEC_BIT: i32 = 4;

/// The three independent access flags of one memory mapping.
///
/// Any combination of the three is a valid value; all-false means no access.
/// Values are immutable: parsing or conversion always builds a fresh set.
#[derive(Clone, Copy, Debug, PartialEq, Eq, Structural)]
pub struct PermissionSet {
    pub readable: bool,
    pub writeable: bool,
    pub executable: bool,
}

/// What parsing a permission string yields: each flag is set exactly when
/// its letter occurs anywhere in the text; every other character is ignored.
pub open spec fn parse_perms(s: Seq<char>) -> PermissionSet {
    PermissionSet {
        readable: s.contains('r'),
        writeable: s.contains('w'),
        executable: s.contains('x'),
    }
}

/// The fixed three-character display form: `r` or `-`, then `w` or `-`,
/// then `x` or `-`.
pub open spec fn render_perms(p: PermissionSet) -> Seq<char> {
    seq![
        if p.readable { 'r' } else { '-' },
        if p.writeable { 'w' } else { '-' },
        if p.executable { 'x' } else { '-' },
    ]
}

/// The native protection bitmask of a permission set: the sum of the
/// protection bits of the flags that are on.
pub open spec fn native_flags_of(p: PermissionSet) -> int {
    (if p.readable { PROT_READ_BIT } else { 0 })
    + (if p.writeable { PROT_WRITE_BIT } else { 0 })
    + (if p.executable { PROT_EXEC_BIT } else { 0 })
}

/// The permission set encoded by a native protection bitmask in `0..=7`.
pub open spec fn perms_of_native(bits: int) -> PermissionSet {
    PermissionSet {
        readable: bits % 2 == 1,
        writeable: (bits / 2) % 2 == 1,
        executable: (bits / 4) % 2 == 1,
    }
}

impl PermissionSet {
    /// Parses a permission string: scans each character in order and turns
    /// `readable`, `writeable` or `executable` on at the first `r`, `w` or
    /// `x` respectively.  Any other character, including the trailing
    /// shared/private indicator of a mapping-table field, is skipped, so
    /// parsing never fails; a missing letter simply leaves its flag false.
    pub fn from(s: &str) -> (r: PermissionSet)
        ensures
            r == parse_perms(s@),
    {
        let n: usize = s.unicode_len();
        let mut result = PermissionSet { readable: false, writeable: false, executable: false };
        for i in 0..n
            invariant
                n == s@.len(),
                result == parse_perms(s@.take(i as int)),
        {
            let c = s.get_char(i);
            proof {
                lemma_take_step_contains(s@, i as int, 'r');
                lemma_take_step_contains(s@, i as int, 'w');
                lemma_take_step_contains(s@, i as int, 'x');
            }
            match c {
                'r' => result.readable = true,
                'w' => result.writeable = true,
                'x' => result.executable = true,
                _ => {},
            }
        }
        proof {
            assert(s@.take(n as int) =~= s@);
        }
        result
    }

    /// Whether this set and `mask` overlap: some flag is on in both.
    ///
    /// This is a plain per-field AND joined by OR, so two sets with no
    /// common flag — in particular two all-false sets — never overlap.
    pub fn and(&self, mask: &PermissionSet) -> (r: bool)
        ensures
            r == ((self.readable && mask.readable)
                || (self.writeable && mask.writeable)
                || (self.executable && mask.executable)),
    {
        (self.readable && mask.readable)
            || (self.writeable && mask.writeable)
            || (self.executable && mask.executable)
    }

    /// The native protection bitmask for this set: each flag that is on
    /// contributes its protection bit, an off flag contributes nothing.
    /// Total on every value; the result is always in `0..=7`.
    pub fn to_native_flags(&self) -> (r: i32)
        ensures
            r == native_flags_of(*self),
            0 <= r <= 7,
    {
        (if self.readable { PROT_READ_BIT } else { 0 })
        + (if self.writeable { PROT_WRITE_BIT } else { 0 })
        + (if self.executable { PROT_EXEC_BIT } else { 0 })
    }

    /// The permission set encoded by a native protection bitmask.
    pub fn from_native_flags(bits: i32) -> (r: PermissionSet)
        requires
            0 <= bits <= 7,
        ensures
            r == perms_of_native(bits as int),
    {
        PermissionSet {
            readable: bits % 2 == 1,
            writeable: (bits / 2) % 2 == 1,
            executable: (bits / 4) % 2 == 1,
        }
    }

    /// The three-character display form of this set, in fixed `rwx` order,
    /// with `-` for each flag that is off.
    pub fn display_string(&self) -> (r: String)
        ensures
            r@ == render_perms(*self),
    {
        proof {
            reveal_strlit("r");
            reveal_strlit("w");
            reveal_strlit("x");
            reveal_strlit("-");
        }
        let mut out = String::new();
        if self.readable {
            out.append("r");
        } else {
            out.append("-");
        }
        if self.writeable {
            out.append("w");
        } else {
            out.append("-");
        }
        if self.executable {
            out.append("x");
        } else {
            out.append("-");
        }
        proof {
            assert(out@ =~= render_perms(*self));
        }
        out
    }
}

/// Extending a prefix by one character extends membership by exactly that
/// character.
proof fn lemma_take_step_contains(s: Seq<char>, i: int, c: char)
    requires
        0 <= i < s.len(),
    ensures
        s.take(i + 1).contains(c) <==> (s.take(i).contains(c) || s[i] == c),
{
    assert(s.take(i + 1) =~= s.take(i).push(s[i]));
    if s.take(i).contains(c) {
        let j = choose|j: int| 0 <= j < s.take(i).len() && s.take(i)[j] == c;
        assert(s.take(i + 1)[j] == c);
    }
    if s[i] == c {
        assert(s.take(i + 1)[i] == c);
    }
    if s.take(i + 1).contains(c) {
        let j = choose|j: int| 0 <= j < s.take(i + 1).len() && #[trigger] s.take(i + 1)[j] == c;
        if j < i {
            assert(s.take(i)[j] == c);
        }
    }
}

/// Converting a permission set to its native bitmask and decoding that
/// bitmask again yields the same set: the three protection bits are
/// independent.
pub proof fn lemma_native_flags_round_trip(p: PermissionSet)
    ensures
        perms_of_native(native_flags_of(p)) == p,
{
}

/// Parsing depends only on which characters occur in the text, not on
/// their order or multiplicity: two strings with the same characters parse
/// to the same permission set.
pub proof fn lemma_parse_order_insensitive(s: Seq<char>, t: Seq<char>)
    requires
        forall|c: char| s.contains(c) <==> t.contains(c),
    ensures
        parse_perms(s) == parse_perms(t),
{
    assert(s.contains('r') <==> t.contains('r'));
    assert(s.contains('w') <==> t.contains('w'));
    assert(s.contains('x') <==> t.contains('x'));
}

/// The flag round trip on mapping-table permission fields: parsing a
/// four-character field `{r,-}{w,-}{x,-}{p,s}`, translating the set to the
/// native bitmask, decoding the bitmask and rendering the result
/// reproduces exactly the first three input characters.
pub proof fn lemma_permission_field_round_trip(s: Seq<char>)
    requires
        s.len() == 4,
        s[0] == 'r' || s[0] == '-',
        s[1] == 'w' || s[1] == '-',
        s[2] == 'x' || s[2] == '-',
        s[3] == 'p' || s[3] == 's',
    ensures
        render_perms(perms_of_native(native_flags_of(parse_perms(s)))) =~= s.take(3),
{
    lemma_native_flags_round_trip(parse_perms(s));
    lemma_contains_is_at(s, 'r', 0);
    lemma_contains_is_at(s, 'w', 1);
    lemma_contains_is_at(s, 'x', 2);
}

/// In a four-character permission field, a given permission letter can
/// occur only at its own position: the other three positions hold other
/// characters.  So membership of the letter coincides with the character
/// at that position being the letter.
proof fn lemma_contains_is_at(s: Seq<char>, c: char, pos: int)
    requires
        s.len() == 4,
        0 <= pos < 4,
        s[pos] == c || s[pos] == '-',
        forall|j: int| 0 <= j < 4 && j != pos ==> s[j] != c,
    ensures
        s.contains(c) <==> s[pos] == c,
{
    if s.contains(c) {
        let j = choose|j: int| 0 <= j < s.len() && s[j] == c;
        assert(j == pos);
    }
    if s[pos] == c {
        assert(s.contains(c));
    }
}

} // verus!
