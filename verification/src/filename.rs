//! The portable-filename rule: a name must be one plain filename in the
//! working directory, with the same meaning on Windows, Linux and macOS.
use vstd::prelude::*;
use vstd::string::StringSliceAdditionalSpecFns;
use vstd::utf8::is_continuation_byte;

use crate::error::X3xError;

verus! {

/// The bytes of an ASCII word.
pub open spec fn ascii(word: Seq<char>) -> Seq<u8> {
    word.map_values(|c: char| c as u8)
}

/// Bytes that no portable filename holds: the path separators of any
/// supported system, the punctuation that Windows refuses in names
/// (`: * ? " < > |`), and the ASCII control characters.
pub open spec fn is_nonportable_byte(c: u8) -> bool {
    ||| c == '/' as u8
    ||| c == '\\' as u8
    ||| c == ':' as u8
    ||| c == '*' as u8
    ||| c == '?' as u8
    ||| c == '"' as u8
    ||| c == '<' as u8
    ||| c == '>' as u8
    ||| c == '|' as u8
    ||| c < 0x20
    ||| c == 0x7f
}

/// A name holds a nonportable byte, or ends with a dot or space.
pub open spec fn has_nonportable_chars(name: Seq<u8>) -> bool {
    ||| exists|i: int| 0 <= i < name.len() && #[trigger] is_nonportable_byte(name[i])
    ||| name.len() > 0 && (name.last() == '.' as u8 || name.last() == ' ' as u8)
}

/// The bytes before the first dot (all of them if there is none).
pub open spec fn first_segment(name: Seq<u8>) -> Seq<u8>
    decreases name.len(),
{
    if name.len() == 0 || name[0] == '.' as u8 {
        seq![]
    } else {
        seq![name[0]] + first_segment(name.drop_first())
    }
}

pub open spec fn ascii_upper(c: u8) -> u8 {
    if 'a' as u8 <= c <= 'z' as u8 {
        (c - 32) as u8
    } else {
        c
    }
}

pub open spec fn to_ascii_upper(s: Seq<u8>) -> Seq<u8> {
    s.map_values(|c: u8| ascii_upper(c))
}

/// Device names that Windows reserves whatever the extension.
pub open spec fn is_reserved_word(base: Seq<u8>) -> bool {
    ||| base == ascii(seq!['C', 'O', 'N'])
    ||| base == ascii(seq!['P', 'R', 'N'])
    ||| base == ascii(seq!['A', 'U', 'X'])
    ||| base == ascii(seq!['N', 'U', 'L'])
    ||| base == ascii(seq!['C', 'L', 'O', 'C', 'K', '$'])
    ||| base == ascii(seq!['C', 'O', 'N', 'I', 'N', '$'])
    ||| base == ascii(seq!['C', 'O', 'N', 'O', 'U', 'T', '$'])
}

/// `COM1` through `COM9` and `LPT1` through `LPT9`.
pub open spec fn is_reserved_numbered(base: Seq<u8>) -> bool {
    &&& base.len() == 4
    &&& (base.take(3) == ascii(seq!['C', 'O', 'M']) || base.take(3) == ascii(seq!['L', 'P', 'T']))
    &&& '1' as u8 <= base[3] <= '9' as u8
}

/// The uppercased first segment of a name is a reserved device name.
pub open spec fn is_reserved_device(name: Seq<u8>) -> bool {
    let base = to_ascii_upper(first_segment(name));
    is_reserved_word(base) || is_reserved_numbered(base)
}

/// Names that pass the character check and whose device-name probe slices a
/// four-byte first segment inside a character (byte 3 continues a multi-byte
/// character): the rule panics on them.
pub open spec fn probe_splits_character(name: Seq<u8>) -> bool {
    &&& !has_nonportable_chars(name)
    &&& first_segment(name).len() == 4
    &&& is_continuation_byte(name[3])
}

/// The outcome of the filename rule on the UTF-8 bytes of a name.
pub open spec fn spec_validate_filename(name: Seq<u8>) -> Result<(), X3xError> {
    if has_nonportable_chars(name) {
        Err(X3xError::NonPortableFilename)
    } else if is_reserved_device(name) {
        Err(X3xError::ReservedDeviceName)
    } else if name.len() == 0 {
        Err(X3xError::NotLocalFilename)
    } else {
        Ok(())
    }
}

proof fn lemma_first_segment(name: Seq<u8>, k: int)
    requires
        0 <= k <= name.len(),
        forall|j: int| 0 <= j < k ==> name[j] != '.' as u8,
        k == name.len() || name[k] == '.' as u8,
    ensures
        first_segment(name) == name.take(k),
    decreases k,
{
    if k == 0 {
        assert(name.take(0) =~= seq![]);
    } else {
        lemma_first_segment(name.drop_first(), k - 1);
        assert(name.take(k) =~= seq![name[0]] + name.drop_first().take(k - 1));
    }
}

fn bytes_equal(a: &[u8], b: &[u8]) -> (r: bool)
    ensures
        r == (a@ == b@),
{
    if a.len() != b.len() {
        return false;
    }
    let mut i: usize = 0;
    while i < a.len()
        invariant
            a@.len() == b@.len(),
            i <= a@.len(),
            forall|j: int| 0 <= j < i ==> a@[j] == b@[j],
        decreases a@.len() - i,
    {
        if a[i] != b[i] {
            return false;
        }
        i = i + 1;
    }
    assert(a@ =~= b@);
    true
}

fn reserved_base(base: &[u8]) -> (r: bool)
    ensures
        r == (is_reserved_word(base@) || is_reserved_numbered(base@)),
{
    let con: [u8; 3] = [67u8, 79u8, 78u8];
    let prn: [u8; 3] = [80u8, 82u8, 78u8];
    let aux: [u8; 3] = [65u8, 85u8, 88u8];
    let nul: [u8; 3] = [78u8, 85u8, 76u8];
    let clock: [u8; 6] = [67u8, 76u8, 79u8, 67u8, 75u8, 36u8];
    let conin: [u8; 6] = [67u8, 79u8, 78u8, 73u8, 78u8, 36u8];
    let conout: [u8; 7] = [67u8, 79u8, 78u8, 79u8, 85u8, 84u8, 36u8];
    let com: [u8; 3] = [67u8, 79u8, 77u8];
    let lpt: [u8; 3] = [76u8, 80u8, 84u8];
    proof {
        assert(con@ =~= ascii(seq!['C', 'O', 'N']));
        assert(prn@ =~= ascii(seq!['P', 'R', 'N']));
        assert(aux@ =~= ascii(seq!['A', 'U', 'X']));
        assert(nul@ =~= ascii(seq!['N', 'U', 'L']));
        assert(clock@ =~= ascii(seq!['C', 'L', 'O', 'C', 'K', '$']));
        assert(conin@ =~= ascii(seq!['C', 'O', 'N', 'I', 'N', '$']));
        assert(conout@ =~= ascii(seq!['C', 'O', 'N', 'O', 'U', 'T', '$']));
        assert(com@ =~= ascii(seq!['C', 'O', 'M']));
        assert(lpt@ =~= ascii(seq!['L', 'P', 'T']));
    }
    let word = bytes_equal(base, con.as_slice()) || bytes_equal(base, prn.as_slice())
        || bytes_equal(base, aux.as_slice()) || bytes_equal(base, nul.as_slice())
        || bytes_equal(base, clock.as_slice()) || bytes_equal(base, conin.as_slice())
        || bytes_equal(base, conout.as_slice());
    let numbered = if base.len() == 4 {
        let head = vstd::slice::slice_subrange(base, 0, 3);
        assert(head@ == base@.take(3));
        (bytes_equal(head, com.as_slice()) || bytes_equal(head, lpt.as_slice())) && 49u8
            <= base[3] && base[3] <= 57u8
    } else {
        false
    };
    word || numbered
}

/// Accept only a single filename component: no separator, no Windows-invalid
/// punctuation or ASCII control character, no trailing dot or space, no Windows device name, and not empty. After the
/// first two checks a nonempty name is exactly one normal path component on
/// every supported system, so the last check is emptiness.
pub fn validate_filename(name: &str) -> (r: Result<(), X3xError>)
    requires
        !probe_splits_character(name.spec_bytes()),
    ensures
        r == spec_validate_filename(name.spec_bytes()),
{
    let bytes = name.as_bytes();
    let n = bytes.len();
    let mut i: usize = 0;
    while i < n
        invariant
            n == bytes@.len(),
            bytes@ == name.spec_bytes(),
            i <= n,
            forall|j: int| 0 <= j < i ==> !is_nonportable_byte(bytes@[j]),
        decreases n - i,
    {
        let c = bytes[i];
        if c == 47u8 || c == 92u8 || c == 58u8 || c == 42u8 || c == 63u8 || c == 34u8 || c
            == 60u8 || c == 62u8 || c == 124u8 || c < 32u8 || c == 127u8 {
            assert(is_nonportable_byte(bytes@[i as int]));
            return Err(X3xError::NonPortableFilename);
        }
        i = i + 1;
    }
    if n > 0 && (bytes[n - 1] == 46u8 || bytes[n - 1] == 32u8) {
        return Err(X3xError::NonPortableFilename);
    }
    let mut k: usize = 0;
    while k < n && bytes[k] != 46u8
        invariant
            n == bytes@.len(),
            k <= n,
            forall|j: int| 0 <= j < k ==> bytes@[j] != '.' as u8,
        decreases n - k,
    {
        k = k + 1;
    }
    proof {
        lemma_first_segment(bytes@, k as int);
    }
    let mut base: Vec<u8> = Vec::new();
    let mut m: usize = 0;
    while m < k
        invariant
            k <= n,
            n == bytes@.len(),
            m <= k,
            base@ == to_ascii_upper(bytes@.take(m as int)),
        decreases k - m,
    {
        let c = bytes[m];
        let upper = if 97u8 <= c && c <= 122u8 {
            c - 32
        } else {
            c
        };
        base.push(upper);
        m = m + 1;
        assert(base@ =~= to_ascii_upper(bytes@.take(m as int)));
    }
    if reserved_base(base.as_slice()) {
        return Err(X3xError::ReservedDeviceName);
    }
    if n == 0 {
        return Err(X3xError::NotLocalFilename);
    }
    Ok(())
}

/// The punctuation that no portable name holds: `/ \ : * ? " < > |`.
pub open spec fn is_forbidden_punctuation(c: u8) -> bool {
    c == 0x2F || c == 0x5C || c == 0x3A || c == 0x2A || c == 0x3F || c == 0x22 || c == 0x3C || c
        == 0x3E || c == 0x7C
}

/// Every nonempty name is accepted whose bytes are all printable (0x20 and
/// above, not 0x7F) and none of `/ \ : * ? " < > |`, that does not end with a
/// dot or a space, and that is not a device name: spaces and dots inside a
/// name, and non-ASCII characters, are portable.
pub proof fn lemma_portable_names_accepted(name: Seq<u8>)
    requires
        name.len() > 0,
        forall|i: int|
            0 <= i < name.len() ==> 0x20 <= #[trigger] name[i] && name[i] != 0x7F
                && !is_forbidden_punctuation(name[i]),
        name[name.len() - 1] != 0x2E,
        name[name.len() - 1] != 0x20,
        !is_reserved_device(name),
    ensures
        spec_validate_filename(name) == Ok::<(), X3xError>(()),
{
    assert(!has_nonportable_chars(name)) by {
        assert forall|i: int| 0 <= i < name.len() implies !#[trigger] is_nonportable_byte(
            name[i],
        ) by {
            assert(!is_forbidden_punctuation(name[i]));
        }
    }
}

/// A name with a control byte (below 0x20, or 0x7F), any of
/// `/ \ : * ? " < > |`, or a trailing dot or space is refused as not
/// portable.
pub proof fn lemma_nonportable_names_refused(name: Seq<u8>, i: int)
    requires
        0 <= i < name.len(),
        name[i] < 0x20 || name[i] == 0x7F || is_forbidden_punctuation(name[i]) || (i
            == name.len() - 1 && (name[i] == 0x2E || name[i] == 0x20)),
    ensures
        spec_validate_filename(name) == Err::<(), X3xError>(X3xError::NonPortableFilename),
{
    if !(i == name.len() - 1 && (name[i] == 0x2E || name[i] == 0x20)) {
        assert(is_nonportable_byte(name[i]));
    }
}

} // verus!
