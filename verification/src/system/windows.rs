//! Windows-specific command encoding and the elevated session's side
//! channel file names. The elevated client has no process handle; its
//! command line travels to PowerShell Base64-encoded as UTF-16LE, and its
//! output and exit code come back through well-known temp files.

use vstd::prelude::*;
use vstd::string::StringExecFns;
use base64::Engine;
use crate::digits::{dec_str, u64_to_string};

verus! {

/// The two little-endian bytes of one UTF-16 code unit.
pub open spec fn spec_utf16le_unit(u: int) -> Seq<u8> {
    seq![(u % 256) as u8, ((u / 256) % 256) as u8]
}

/// The UTF-16LE encoding of one character: one unit below 0x10000, a
/// surrogate pair above.
pub open spec fn spec_utf16le_char(c: char) -> Seq<u8> {
    let v = (c as u32) as int;
    if v < 0x10000 {
        spec_utf16le_unit(v)
    } else {
        let w = v - 0x10000;
        spec_utf16le_unit(0xD800 + w / 0x400) + spec_utf16le_unit(0xDC00 + w % 0x400)
    }
}

/// The UTF-16LE encoding of a character sequence.
pub open spec fn spec_utf16le_bytes(s: Seq<char>) -> Seq<u8>
    decreases s.len(),
{
    if s.len() == 0 {
        Seq::empty()
    } else {
        spec_utf16le_char(s[0]) + spec_utf16le_bytes(s.skip(1))
    }
}

/// Encode `s` as UTF-16LE bytes.
pub fn utf16le_bytes(s: &str) -> (r: Vec<u8>)
    ensures
        r@ == spec_utf16le_bytes(s@),
{
    let chars = crate::chars::chars_of(s);
    let n = chars.len();
    let mut bytes: Vec<u8> = Vec::new();
    let mut i: usize = 0;
    proof {
        assert(s@.skip(0) =~= s@);
        assert(bytes@ + spec_utf16le_bytes(s@) =~= spec_utf16le_bytes(s@));
    }
    while i < n
        invariant
            n == s@.len(),
            chars@ == s@,
            i <= n,
            spec_utf16le_bytes(s@) == bytes@ + spec_utf16le_bytes(s@.skip(i as int)),
        decreases n - i,
    {
        let ghost before = bytes@;
        proof {
            assert(s@.skip(i as int)[0] == s@[i as int]);
            assert(s@.skip(i as int).skip(1) =~= s@.skip(i + 1));
        }
        let c = chars[i];
        let v = c as u32;
        if v < 0x10000 {
            bytes.push((v % 256) as u8);
            bytes.push(((v / 256) % 256) as u8);
            proof {
                assert(bytes@ =~= before + spec_utf16le_char(s@[i as int]));
            }
        } else {
            let w = v - 0x10000;
            let high: u32 = 0xD800 + w / 0x400;
            let low: u32 = 0xDC00 + w % 0x400;
            bytes.push((high % 256) as u8);
            bytes.push(((high / 256) % 256) as u8);
            bytes.push((low % 256) as u8);
            bytes.push(((low / 256) % 256) as u8);
            proof {
                assert(bytes@ =~= before + spec_utf16le_char(s@[i as int]));
            }
        }
        proof {
            assert(before + (spec_utf16le_char(s@[i as int]) + spec_utf16le_bytes(
                s@.skip(i + 1),
            )) =~= bytes@ + spec_utf16le_bytes(s@.skip(i + 1)));
        }
        i = i + 1;
    }
    proof {
        assert(spec_utf16le_bytes(s@.skip(n as int)) =~= Seq::<u8>::empty());
        assert(bytes@ + Seq::<u8>::empty() =~= bytes@);
    }
    bytes
}

/// What base64's standard-alphabet, padded engine produces for a byte
/// sequence.
pub uninterp spec fn base64_standard_of(bytes: Seq<u8>) -> Seq<char>;

/// Relies on base64's `STANDARD` engine: the standard alphabet with '='
/// padding, four output characters for every started three-byte group.
#[verifier::external_body]
fn base64_encode_standard(bytes: &Vec<u8>) -> (r: String)
    ensures
        r@ == base64_standard_of(bytes@),
        r@.len() == 4 * ((bytes@.len() + 2) / 3),
{
    base64::engine::general_purpose::STANDARD.encode(bytes)
}

/// The `-EncodedCommand` argument for PowerShell: the command text as
/// UTF-16LE, Base64-encoded, which sidesteps all quoting.
pub fn encode_powershell_command(command: &str) -> (r: String)
    ensures
        r@ == base64_standard_of(spec_utf16le_bytes(command@)),
{
    let bytes = utf16le_bytes(command);
    base64_encode_standard(&bytes)
}

/// The elevated session's log file name for this process id.
pub fn elevated_log_file_name(process_id: u32) -> (r: String)
    ensures
        r@ == "trusttunnel_elevated_"@ + dec_str(process_id as nat) + ".log"@,
{
    let digits = u64_to_string(process_id as u64);
    let mut r = String::from_str("trusttunnel_elevated_");
    r.append(digits.as_str());
    r.append(".log");
    proof {
        assert(r@ =~= "trusttunnel_elevated_"@ + dec_str(process_id as nat) + ".log"@);
    }
    r
}

/// The elevated session's exit-marker file name for this process id.
pub fn elevated_exit_marker_file_name(process_id: u32) -> (r: String)
    ensures
        r@ == "trusttunnel_elevated_"@ + dec_str(process_id as nat) + ".exit"@,
{
    let digits = u64_to_string(process_id as u64);
    let mut r = String::from_str("trusttunnel_elevated_");
    r.append(digits.as_str());
    r.append(".exit");
    proof {
        assert(r@ =~= "trusttunnel_elevated_"@ + dec_str(process_id as nat) + ".exit"@);
    }
    r
}

} // verus!
