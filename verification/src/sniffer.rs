//! SNI sniffing: walks a raw TLS ClientHello record for the server_name
//! extension and returns the first host name it carries.

use vstd::prelude::*;

use crate::encoding::{be16, read_u16, sub_vec};

verus! {

/// The bounds of the extension area of a sniffable ClientHello record:
/// content type 22, handshake type 1, and every length field in bounds.
pub open spec fn spec_sniff_ext_area(d: Seq<u8>) -> Option<(int, int)> {
    if d.len() < 43 {
        None
    } else if d[0] != 0x16 {
        None
    } else if d[5] != 1 {
        None
    } else if 43 + 1 > d.len() {
        None
    } else {
        let sid = d[43] as int;
        let cs_pos = 44 + sid;
        if cs_pos + 2 > d.len() {
            None
        } else {
            let cs = be16(d[cs_pos], d[cs_pos + 1]);
            let comp_pos = cs_pos + 2 + cs;
            if comp_pos + 1 > d.len() {
                None
            } else {
                let comp = d[comp_pos] as int;
                let ext_pos = comp_pos + 1 + comp;
                if ext_pos + 2 > d.len() {
                    None
                } else {
                    let el = be16(d[ext_pos], d[ext_pos + 1]);
                    let start = ext_pos + 2;
                    if start + el > d.len() {
                        None
                    } else {
                        Some((start, start + el))
                    }
                }
            }
        }
    }
}

/// The first type-0 entry of a server-name list.
pub open spec fn spec_sniff_names(d: Seq<u8>, p: int, end: int) -> Option<Seq<u8>>
    decreases end - p,
{
    if p + 3 > end {
        None
    } else {
        let nt = d[p];
        let nl = be16(d[p + 1], d[p + 2]);
        if p + 3 + nl > end {
            None
        } else if nt == 0 {
            Some(d.subrange(p + 3, p + 3 + nl))
        } else {
            spec_sniff_names(d, p + 3 + nl, end)
        }
    }
}

/// The host name found by walking the extension list from `pos` to `end`.
pub open spec fn spec_sniff_exts(d: Seq<u8>, pos: int, end: int) -> Option<Seq<u8>>
    decreases end - pos,
{
    if pos + 4 > end {
        None
    } else {
        let t = be16(d[pos], d[pos + 1]);
        let l = be16(d[pos + 2], d[pos + 3]);
        if pos + 4 + l > end {
            None
        } else if t == 0 {
            if l < 2 {
                None
            } else {
                let ll = be16(d[pos + 4], d[pos + 5]);
                let end_list = pos + 6 + ll;
                if end_list > pos + 4 + l {
                    None
                } else {
                    match spec_sniff_names(d, pos + 6, end_list) {
                        Some(h) => Some(h),
                        None => spec_sniff_exts(d, pos + 4 + l, end),
                    }
                }
            }
        } else {
            spec_sniff_exts(d, pos + 4 + l, end)
        }
    }
}

/// The SNI host bytes of a raw ClientHello record, if any.
pub open spec fn spec_sniff(d: Seq<u8>) -> Option<Seq<u8>> {
    match spec_sniff_ext_area(d) {
        Some((start, end)) => spec_sniff_exts(d, start, end),
        None => None,
    }
}

/// Relies on String::from_utf8: it succeeds exactly on valid UTF-8, and the
/// returned string's bytes are the input bytes.
#[verifier::external_body]
fn utf8_to_string(b: Vec<u8>) -> (r: Option<String>)
    ensures
        match r {
            Some(s) => vstd::utf8::valid_utf8(b@) && vstd::utf8::encode_utf8(s@) == b@,
            None => !vstd::utf8::valid_utf8(b@),
        },
{
    String::from_utf8(b).ok()
}

/// Sniffs the server name from a raw TLS ClientHello record: the first
/// type-0 entry of the first well-formed server_name extension, decoded as
/// UTF-8.
pub fn sniff_tls_sni(data: &Vec<u8>) -> (r: Option<String>)
    ensures
        match r {
            Some(s) => spec_sniff(data@) matches Some(h) && vstd::utf8::encode_utf8(s@) == h,
            None => spec_sniff(data@) is None || (spec_sniff(data@) matches Some(h)
                && !vstd::utf8::valid_utf8(h)),
        },
{
    let host = match sniff_host_bytes(data) {
        Some(h) => h,
        None => {
            return None;
        },
    };
    utf8_to_string(host)
}

/// Finds the raw SNI host bytes.
fn sniff_host_bytes(data: &Vec<u8>) -> (r: Option<Vec<u8>>)
    ensures
        match r {
            Some(h) => spec_sniff(data@) == Some(h@),
            None => spec_sniff(data@) is None,
        },
{
    let n: usize = data.len();
    if n < 44 {
        return None;
    }
    if data[0] != 0x16 {
        return None;
    }
    if data[5] != 1 {
        return None;
    }
    let sid = data[43] as usize;
    if n - 44 < sid + 2 {
        return None;
    }
    let cs_pos = 44 + sid;
    let cs = read_u16(data, cs_pos) as usize;
    if n - cs_pos - 2 < cs + 1 {
        return None;
    }
    let comp_pos = cs_pos + 2 + cs;
    let comp = data[comp_pos] as usize;
    if n - comp_pos - 1 < comp + 2 {
        return None;
    }
    let ext_pos = comp_pos + 1 + comp;
    let el = read_u16(data, ext_pos) as usize;
    if n - ext_pos - 2 < el {
        return None;
    }
    let start = ext_pos + 2;
    sniff_exts(data, start, start + el)
}

/// Walks the extension list for a server-name host.
fn sniff_exts(data: &Vec<u8>, start: usize, end: usize) -> (r: Option<Vec<u8>>)
    requires
        start <= end <= data@.len(),
    ensures
        match r {
            Some(h) => spec_sniff_exts(data@, start as int, end as int) == Some(h@),
            None => spec_sniff_exts(data@, start as int, end as int) is None,
        },
{
    let n: usize = data.len();
    let mut pos = start;
    while end - pos >= 4
        invariant
            start <= pos <= end <= data@.len(),
            n == data@.len(),
            spec_sniff_exts(data@, start as int, end as int) == spec_sniff_exts(
                data@,
                pos as int,
                end as int,
            ),
        decreases end - pos,
    {
        let t = read_u16(data, pos);
        let l = read_u16(data, pos + 2) as usize;
        if end - pos - 4 < l {
            return None;
        }
        if t == 0 {
            if l < 2 {
                return None;
            }
            let ll = read_u16(data, pos + 4) as usize;
            if ll + 2 > l {
                return None;
            }
            match sniff_names(data, pos + 6, pos + 6 + ll) {
                Some(h) => {
                    return Some(h);
                },
                None => {},
            }
        }
        pos = pos + 4 + l;
    }
    None
}

/// Walks a server-name list for the first type-0 host entry.
fn sniff_names(data: &Vec<u8>, start: usize, end: usize) -> (r: Option<Vec<u8>>)
    requires
        start <= end <= data@.len(),
    ensures
        match r {
            Some(h) => spec_sniff_names(data@, start as int, end as int) == Some(h@),
            None => spec_sniff_names(data@, start as int, end as int) is None,
        },
{
    let n: usize = data.len();
    let mut p = start;
    while end - p >= 3
        invariant
            start <= p <= end <= data@.len(),
            n == data@.len(),
            spec_sniff_names(data@, start as int, end as int) == spec_sniff_names(
                data@,
                p as int,
                end as int,
            ),
        decreases end - p,
    {
        let nt = data[p];
        let nl = read_u16(data, p + 1) as usize;
        if end - p - 3 < nl {
            return None;
        }
        if nt == 0 {
            return Some(sub_vec(data, p + 3, p + 3 + nl));
        }
        p = p + 3 + nl;
    }
    None
}

} // verus!
