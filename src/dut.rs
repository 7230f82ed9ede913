use vstd::prelude::*;
use vstd::string::*;

use crate::text::{
    before_char, chars_of, dec_chars, decimal_text, find_char, find_char_in, find_seq,
    find_seq_in, parse_u32_range, parse_u32_spec, trim, trim_range,
};

verus! {

/// Name for what `String::from_utf8_lossy` makes of a byte string.
pub uninterp spec fn lossy_text_of(b: Seq<u8>) -> Seq<char>;

/// Relies on `String::from_utf8_lossy`: the text is a function of the bytes alone, and
/// bytes that are all ASCII are valid UTF-8, decoded one character per byte.
#[verifier::external_body]
fn utf8_lossy(b: &[u8]) -> (r: String)
    ensures
        r@ == lossy_text_of(b@),
        (forall|i: int| 0 <= i < b@.len() ==> b@[i] < 128) ==> r@ == b@.map_values(
            |x: u8| x as char,
        ),
{
    String::from_utf8_lossy(b).into_owned()
}

/// The radio interface that serves a carrier: the 5 GHz one from 5000 MHz up.
pub open spec fn interface_name(cf_mhz: u32) -> Seq<char> {
    if cf_mhz >= 5000 {
        "wlan0"@
    } else {
        "wlan1"@
    }
}

/// Bandwidth code that the device expects for a channel width in MHz.
pub open spec fn bandwidth_code_spec(bw_mhz: u32) -> u32 {
    if bw_mhz == 40 {
        2
    } else if bw_mhz == 80 {
        3
    } else if bw_mhz == 160 {
        4
    } else {
        1
    }
}

/// Arguments of the ATE command that opens the receive path.
pub open spec fn open_rx_args(cf_mhz: u32, bw_mhz: u32) -> Seq<Seq<char>> {
    let cf = dec_chars(cf_mhz as nat);
    let code = dec_chars(bandwidth_code_spec(bw_mhz) as nat);
    seq![
        interface_name(cf_mhz),
        "fastconfig"@,
        "-f"@,
        cf,
        "-c"@,
        cf,
        "-w"@,
        code,
        "-u"@,
        code,
        "-r"@,
    ]
}

/// Arguments of the ATE command that closes the receive path.
pub open spec fn close_rx_args(cf_mhz: u32) -> Seq<Seq<char>> {
    seq![interface_name(cf_mhz), "fastconfig"@, "-k"@]
}

/// A request to the device's control daemon; each travels as one JSON line.
pub enum DutCommand {
    #[allow(non_camel_case_types)]
    ATECmd { cmd: String, args: Vec<String> },
    ReadMib(String),
}

/// What a request says, as text.
pub enum DutCommandView {
    Ate { cmd: Seq<char>, args: Seq<Seq<char>> },
    ReadMib(Seq<char>),
}

pub open spec fn strings_view(v: Seq<String>) -> Seq<Seq<char>> {
    v.map_values(|s: String| s@)
}

impl View for DutCommand {
    type V = DutCommandView;

    open spec fn view(&self) -> DutCommandView {
        match self {
            DutCommand::ATECmd { cmd, args } => DutCommandView::Ate {
                cmd: cmd@,
                args: strings_view(args@),
            },
            DutCommand::ReadMib(iface) => DutCommandView::ReadMib(iface@),
        }
    }
}

/// The header line that answers every request.
pub struct ResponseHeader {
    pub is_error: bool,
    pub file_size: u64,
}

/// A failure that the device reports.
#[derive(Debug, PartialEq, Eq, Structural)]
pub enum DutError {
    /// The response header carried `is_error`.
    DeviceError,
}

/// Parsed MIB statistics from the device's debug output.
#[derive(Clone, Copy, Debug)]
pub struct MibResult {
    /// Total received packet count (`user->rec_rx_count`).
    pub rec_rx_count: Option<u32>,
    /// Decoded OK count for the matching bandwidth (`receive <BW>M OK`).
    pub rx_ok_count: Option<u32>,
}

/// `t` from `from` to the end of that line.
pub open spec fn line_rest(t: Seq<char>, from: int) -> Seq<char> {
    before_char(t.skip(from), '\n')
}

/// The text between the first `=` of `t` and the next `=` (or the end).
pub open spec fn eq_field(t: Seq<char>) -> Option<Seq<char>> {
    match find_char(t, '=') {
        Some(e) => Some(before_char(t.skip(e + 1), '=')),
        None => None,
    }
}

/// The `=` field that follows the first occurrence of `label`, on its line.
pub open spec fn labelled_field(t: Seq<char>, label: Seq<char>) -> Option<Seq<char>> {
    match find_seq(t, label) {
        Some(p) => eq_field(line_rest(t, p + label.len())),
        None => None,
    }
}

pub open spec fn ok_label(bw_mhz: u32) -> Seq<char> {
    "receive "@ + dec_chars(bw_mhz as nat) + "M OK"@
}

/// The total received count that the text reports, if it reports one.
pub open spec fn rec_rx_count_of(t: Seq<char>) -> Option<u32> {
    match labelled_field(t, "user->rec_rx_count"@) {
        Some(f) => parse_u32_spec(trim(f)),
        None => None,
    }
}

/// The decoded-OK count that the text reports for a bandwidth, if it reports one.
pub open spec fn rx_ok_count_of(t: Seq<char>, bw_mhz: u32) -> Option<u32> {
    match labelled_field(t, ok_label(bw_mhz)) {
        Some(f) => parse_u32_spec(trim(before_char(trim(f), ','))),
        None => None,
    }
}

proof fn lemma_find_char_bounds(s: Seq<char>, c: char)
    ensures
        match find_char(s, c) {
            Some(i) => 0 <= i < s.len() && s[i] == c,
            None => true,
        },
    decreases s.len(),
{
    if s.len() > 0 && s[0] != c {
        lemma_find_char_bounds(s.skip(1), c);
    }
}

proof fn lemma_find_seq_bounds(s: Seq<char>, k: Seq<char>)
    ensures
        match find_seq(s, k) {
            Some(i) => 0 <= i && i + k.len() <= s.len(),
            None => true,
        },
    decreases s.len(),
{
    if s.len() >= k.len() && s.take(k.len() as int) != k && s.len() > 0 {
        lemma_find_seq_bounds(s.skip(1), k);
    }
}

/// Where `t[lo..hi]` ends when cut before its first `c`.
fn end_before(t: &Vec<char>, c: char, lo: usize, hi: usize) -> (r: usize)
    requires
        lo <= hi <= t.len(),
    ensures
        lo <= r <= hi,
        t@.subrange(lo as int, r as int) == before_char(t@.subrange(lo as int, hi as int), c),
{
    let ghost s = t@.subrange(lo as int, hi as int);
    proof {
        lemma_find_char_bounds(s, c);
    }
    match find_char_in(t, c, lo, hi) {
        Some(j) => {
            assert(find_char(s, c) == Some(j - lo));
            assert(s.take(j - lo) =~= t@.subrange(lo as int, j as int));
            j
        },
        None => {
            assert(s =~= t@.subrange(lo as int, hi as int));
            hi
        },
    }
}

/// Bounds of `labelled_field(t, label)` within `t`.
fn labelled_field_range(t: &Vec<char>, label: &Vec<char>) -> (r: Option<(usize, usize)>)
    ensures
        match r {
            Some((a, b)) => a <= b <= t.len() && labelled_field(t@, label@) == Some(
                t@.subrange(a as int, b as int),
            ),
            None => labelled_field(t@, label@) == None::<Seq<char>>,
        },
{
    proof {
        lemma_find_seq_bounds(t@, label@);
    }
    let p = match find_seq_in(t, label) {
        Some(p) => p,
        None => {
            return None;
        },
    };
    assert(find_seq(t@, label@) == Some(p as int));
    assert(p + label@.len() <= t@.len());
    assert(t@.len() == t.len());
    let from = p + label.len();
    assert(t@.skip(from as int) =~= t@.subrange(from as int, t.len() as int));
    let le = end_before(t, '\n', from, t.len());
    let ghost line = t@.subrange(from as int, le as int);
    assert(line == line_rest(t@, p + label@.len()));
    proof {
        lemma_find_char_bounds(line, '=');
    }
    match find_char_in(t, '=', from, le) {
        Some(e) => {
            assert(find_char(line, '=') == Some(e - from));
            assert(line.skip(e - from + 1) =~= t@.subrange(e + 1, le as int));
            let end = end_before(t, '=', e + 1, le);
            Some((e + 1, end))
        },
        None => None,
    }
}

/// The device-control protocol: the requests that the daemon takes and the reading
/// of its answers. The socket that carries them is the caller's.
pub struct DutClient {}

impl DutClient {
    /// The radio interface that serves a carrier frequency in MHz.
    pub fn interface(cf_mhz: u32) -> (r: String)
        ensures
            r@ == interface_name(cf_mhz),
    {
        if cf_mhz >= 5000 {
            "wlan0".to_owned()
        } else {
            "wlan1".to_owned()
        }
    }

    /// Maps a channel width in MHz to the device's bandwidth code; a width other than
    /// 40, 80 or 160 gets the 20 MHz code.
    pub fn bandwidth_code(bw_mhz: u32) -> (r: u32)
        ensures
            r == bandwidth_code_spec(bw_mhz),
    {
        match bw_mhz {
            40 => 2,
            80 => 3,
            160 => 4,
            _ => 1,
        }
    }

    /// The request that opens the receive path on a carrier, at a channel width.
    pub fn open_rx(cf_mhz: u32, bw_mhz: u32) -> (r: DutCommand)
        ensures
            r@ == (DutCommandView::Ate { cmd: "ate_cmd"@, args: open_rx_args(cf_mhz, bw_mhz) }),
    {
        let code = Self::bandwidth_code(bw_mhz);
        let mut args: Vec<String> = Vec::new();
        args.push(Self::interface(cf_mhz));
        args.push("fastconfig".to_owned());
        args.push("-f".to_owned());
        args.push(decimal_text(cf_mhz as u64));
        args.push("-c".to_owned());
        args.push(decimal_text(cf_mhz as u64));
        args.push("-w".to_owned());
        args.push(decimal_text(code as u64));
        args.push("-u".to_owned());
        args.push(decimal_text(code as u64));
        args.push("-r".to_owned());
        let r = DutCommand::ATECmd { cmd: "ate_cmd".to_owned(), args };
        assert(strings_view(args@) =~= open_rx_args(cf_mhz, bw_mhz));
        r
    }

    /// The request that closes the receive path of a carrier's interface.
    pub fn close_rx(cf_mhz: u32) -> (r: DutCommand)
        ensures
            r@ == (DutCommandView::Ate { cmd: "ate_cmd"@, args: close_rx_args(cf_mhz) }),
    {
        let mut args: Vec<String> = Vec::new();
        args.push(Self::interface(cf_mhz));
        args.push("fastconfig".to_owned());
        args.push("-k".to_owned());
        let r = DutCommand::ATECmd { cmd: "ate_cmd".to_owned(), args };
        assert(strings_view(args@) =~= close_rx_args(cf_mhz));
        r
    }

    /// The request that reads the MIB statistics of a carrier's interface.
    pub fn read_mib(cf_mhz: u32) -> (r: DutCommand)
        ensures
            r@ == DutCommandView::ReadMib(interface_name(cf_mhz)),
    {
        DutCommand::ReadMib(Self::interface(cf_mhz))
    }

    /// Reads the header that answers a request with no payload.
    pub fn read_resp(header: &ResponseHeader) -> (r: Result<(), DutError>)
        ensures
            r == (if header.is_error {
                Err(DutError::DeviceError)
            } else {
                Ok::<(), DutError>(())
            }),
    {
        if header.is_error {
            Err(DutError::DeviceError)
        } else {
            Ok(())
        }
    }

    /// Reads the header that answers a MIB request: on success, the number of payload
    /// bytes that follow it.
    pub fn read_resp_raw(header: &ResponseHeader) -> (r: Result<u64, DutError>)
        ensures
            r == (if header.is_error {
                Err(DutError::DeviceError)
            } else {
                Ok::<u64, DutError>(header.file_size)
            }),
    {
        if header.is_error {
            Err(DutError::DeviceError)
        } else {
            Ok(header.file_size)
        }
    }

    /// The MIB text carried by a payload, decoded as UTF-8 with invalid sequences replaced.
    pub fn mib_text(payload: &[u8]) -> (r: String)
        ensures
            r@ == lossy_text_of(payload@),
            (forall|i: int| 0 <= i < payload@.len() ==> payload@[i] < 128) ==> r@
                == payload@.map_values(|x: u8| x as char),
    {
        utf8_lossy(payload)
    }

    /// Extracts the total received count and the decoded-OK count for a bandwidth from
    /// the device's MIB text. A counter whose label is missing, or whose value does not
    /// read as a `u32`, is `None`.
    pub fn parse_mib_resp(output: &str, bw_mhz: u32) -> (r: MibResult)
        ensures
            r.rec_rx_count == rec_rx_count_of(output@),
            r.rx_ok_count == rx_ok_count_of(output@, bw_mhz),
    {
        let t = chars_of(output);
        let rec_label = chars_of("user->rec_rx_count");
        let rec_rx_count = match labelled_field_range(&t, &rec_label) {
            Some((a, b)) => {
                let (x, y) = trim_range(&t, a, b);
                parse_u32_range(&t, x, y)
            },
            None => None,
        };
        let mut key = "receive ".to_owned();
        let bw = decimal_text(bw_mhz as u64);
        key.append(bw.as_str());
        key.append("M OK");
        let key_chars = chars_of(key.as_str());
        assert(key_chars@ =~= ok_label(bw_mhz));
        let rx_ok_count = match labelled_field_range(&t, &key_chars) {
            Some((a, b)) => {
                let (x, y) = trim_range(&t, a, b);
                let z = end_before(&t, ',', x, y);
                let (p, q) = trim_range(&t, x, z);
                parse_u32_range(&t, p, q)
            },
            None => None,
        };
        MibResult { rec_rx_count, rx_ok_count }
    }
}

} // verus!
