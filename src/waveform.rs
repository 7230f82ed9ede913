use vstd::prelude::*;
use vstd::string::*;

verus! {

/// The fewest samples that a generated waveform may hold.
pub const MIN_LEN: usize = 60;

/// Name for what `Path::extension` gives for a path, as text.
pub uninterp spec fn extension_of(p: Seq<char>) -> Option<Seq<char>>;

/// Name for what `Path::file_name` gives for a path, as text.
pub uninterp spec fn file_name_of(p: Seq<char>) -> Option<Seq<char>>;

/// Name for what `str::to_lowercase` makes of a string.
pub uninterp spec fn lower_of(s: Seq<char>) -> Seq<char>;

/// Relies on `Path::extension`: the extension of the path's final component, a function
/// of the path's text alone.
#[verifier::external_body]
fn path_extension(p: &str) -> (r: Option<String>)
    ensures
        match r {
            Some(e) => extension_of(p@) == Some(e@),
            None => extension_of(p@) == None::<Seq<char>>,
        },
{
    std::path::Path::new(p).extension().and_then(|e| e.to_str()).map(|e| e.to_string())
}

/// Relies on `Path::file_name`: the path's final component, a function of its text alone.
#[verifier::external_body]
fn path_file_name(p: &str) -> (r: Option<String>)
    ensures
        match r {
            Some(n) => file_name_of(p@) == Some(n@),
            None => file_name_of(p@) == None::<Seq<char>>,
        },
{
    std::path::Path::new(p).file_name().and_then(|n| n.to_str()).map(|n| n.to_string())
}

/// Relies on `str::to_lowercase`: the result depends on the characters alone.
#[verifier::external_body]
fn lowercase(s: &str) -> (r: String)
    ensures
        r@ == lower_of(s@),
{
    s.to_lowercase()
}

/// Description of a loaded waveform.
#[derive(Clone, Debug)]
pub struct WaveformInfo {
    pub file_name: String,
    /// Size of the encoded waveform, in bytes.
    pub file_size: usize,
    /// Number of I/Q sample pairs.
    pub sample_count: usize,
}

/// How a waveform file is read.
#[derive(Clone, Copy, Debug, PartialEq, Eq, Structural)]
pub enum WaveformFormat {
    /// A `.mat` file of numeric I/Q arrays, to be scaled and encoded.
    Numeric,
    /// A `.waveform` file already holding big-endian interleaved 16-bit I/Q.
    Raw,
}

/// Which reader a waveform path calls for, and the file's name.
pub struct WaveformSource {
    pub format: WaveformFormat,
    pub file_name: String,
}

#[derive(Debug)]
pub enum WaveformError {
    /// The extension (lower-cased) names no format that can be read.
    UnsupportedFormat(String),
    /// A raw file holds fewer bytes, given here, than one I/Q pair.
    TooSmall(usize),
    /// A raw file's size, given here, is not a whole number of I/Q pairs.
    NotWholeSamples(usize),
    /// The padded waveform holds fewer samples, given here, than `MIN_LEN`.
    TooShort(usize),
}

/// The extension of a path, lower-cased; empty where the path has none.
pub open spec fn extension_key(p: Seq<char>) -> Seq<char> {
    match extension_of(p) {
        Some(e) => lower_of(e),
        None => Seq::<char>::empty(),
    }
}

pub open spec fn display_name(p: Seq<char>) -> Seq<char> {
    match file_name_of(p) {
        Some(n) => n,
        None => "unknown"@,
    }
}

/// Picks the reader for a waveform file by its extension, in any case: `mat` for numeric
/// arrays, `waveform` for raw samples; any other extension is refused.
pub fn load_waveform_file(file_path: &str) -> (r: Result<WaveformSource, WaveformError>)
    ensures
        extension_key(file_path@) == "mat"@ ==> (r matches Ok(s) && s.format
            == WaveformFormat::Numeric && s.file_name@ == display_name(file_path@)),
        extension_key(file_path@) == "waveform"@ ==> (r matches Ok(s) && s.format
            == WaveformFormat::Raw && s.file_name@ == display_name(file_path@)),
        extension_key(file_path@) != "mat"@ && extension_key(file_path@) != "waveform"@ ==> (
        r matches Err(WaveformError::UnsupportedFormat(e)) && e@ == extension_key(file_path@)),
{
    proof {
        reveal_strlit("mat");
        reveal_strlit("waveform");
        assert("mat"@.len() != "waveform"@.len());
    }
    let ext = match path_extension(file_path) {
        Some(e) => lowercase(e.as_str()),
        None => String::new(),
    };
    let format = if ext == "mat".to_owned() {
        WaveformFormat::Numeric
    } else if ext == "waveform".to_owned() {
        WaveformFormat::Raw
    } else {
        return Err(WaveformError::UnsupportedFormat(ext));
    };
    let file_name = match path_file_name(file_path) {
        Some(n) => n,
        None => "unknown".to_owned(),
    };
    Ok(WaveformSource { format, file_name })
}

/// Checks a raw waveform file's bytes: at least one I/Q pair (4 bytes) and a whole number
/// of pairs. The bytes pass through unchanged.
pub fn load_waveform_raw(file_name: String, data: Vec<u8>) -> (r: Result<
    (Vec<u8>, WaveformInfo),
    WaveformError,
>)
    ensures
        data.len() < 4 ==> (r matches Err(WaveformError::TooSmall(n)) && n == data.len()),
        data.len() >= 4 && data.len() % 4 != 0 ==> (r matches Err(
            WaveformError::NotWholeSamples(n),
        ) && n == data.len()),
        data.len() >= 4 && data.len() % 4 == 0 ==> (r matches Ok((bytes, info)) && bytes@
            == data@ && info.file_name@ == file_name@ && info.file_size == data.len()
            && info.sample_count == data.len() / 4),
{
    let n = data.len();
    if n < 4 {
        return Err(WaveformError::TooSmall(n));
    }
    if n % 4 != 0 {
        return Err(WaveformError::NotWholeSamples(n));
    }
    let info = WaveformInfo { file_name, file_size: n, sample_count: n / 4 };
    Ok((data, info))
}

/// Product of the dimensions of an array.
pub open spec fn dims_product(d: Seq<usize>) -> nat
    decreases d.len(),
{
    if d.len() == 0 {
        1
    } else {
        d[0] as nat * dims_product(d.skip(1))
    }
}

/// The samples of the first row of a column-major array: with two or more dimensions and
/// more than one row, every `rows`-th element from the first; otherwise all of them.
pub open spec fn first_row_of<T>(data: Seq<T>, dims: Seq<usize>) -> Seq<T> {
    if dims.len() >= 2 && dims[0] > 1 {
        let rows = dims[0] as int;
        Seq::new(dims_product(dims.skip(1)), |c: int| data[c * rows])
    } else {
        data
    }
}

proof fn lemma_suffix_product_le(d: Seq<usize>, i: int)
    requires
        0 <= i <= d.len(),
        forall|k: int| 0 <= k < d.len() ==> d[k] >= 1,
    ensures
        dims_product(d.subrange(i, d.len() as int)) <= dims_product(d),
        dims_product(d.subrange(i, d.len() as int)) >= 1,
    decreases i,
{
    if i == 0 {
        assert(d.subrange(0, d.len() as int) =~= d);
        lemma_product_positive(d);
    } else {
        lemma_suffix_product_le(d, i - 1);
        let s = d.subrange(i - 1, d.len() as int);
        assert(s.skip(1) =~= d.subrange(i, d.len() as int));
        lemma_product_positive(s.skip(1));
        assert(s[0] >= 1);
        assert(dims_product(s) == s[0] as nat * dims_product(s.skip(1)));
        assert(dims_product(s.skip(1)) <= dims_product(s)) by (nonlinear_arith)
            requires
                dims_product(s) == s[0] as nat * dims_product(s.skip(1)),
                s[0] >= 1,
        ;
    }
}

proof fn lemma_product_positive(d: Seq<usize>)
    requires
        forall|k: int| 0 <= k < d.len() ==> d[k] >= 1,
    ensures
        dims_product(d) >= 1,
    decreases d.len(),
{
    if d.len() > 0 {
        lemma_product_positive(d.skip(1));
        assert(d[0] >= 1);
        assert(d[0] as nat * dims_product(d.skip(1)) >= 1) by (nonlinear_arith)
            requires
                d[0] >= 1,
                dims_product(d.skip(1)) >= 1,
        ;
    }
}

/// Keeps only the first row of a column-major numeric array of shape `dims`.
pub fn first_row<T: Copy>(data: &Vec<T>, dims: &Vec<usize>) -> (r: Vec<T>)
    requires
        data.len() == dims_product(dims@),
        forall|k: int| 0 <= k < dims.len() ==> dims@[k] >= 1,
    ensures
        r@ == first_row_of(data@, dims@),
{
    if dims.len() < 2 || dims[0] <= 1 {
        let mut out: Vec<T> = Vec::new();
        let mut i: usize = 0;
        while i < data.len()
            invariant
                i <= data.len(),
                out@ == data@.take(i as int),
            decreases data.len() - i,
        {
            out.push(data[i]);
            i = i + 1;
            assert(out@ =~= data@.take(i as int));
        }
        assert(data@.take(i as int) =~= data@);
        return out;
    }
    let rows = dims[0];
    let n = dims.len();
    let mut cols: usize = 1;
    let mut i: usize = n;
    assert(dims@.subrange(n as int, n as int) =~= Seq::<usize>::empty());
    while i > 1
        invariant
            1 <= i <= n,
            n == dims@.len(),
            data.len() == dims_product(dims@),
            forall|k: int| 0 <= k < dims.len() ==> dims@[k] >= 1,
            cols == dims_product(dims@.subrange(i as int, n as int)),
        decreases i,
    {
        let ghost s = dims@.subrange(i - 1, n as int);
        assert(s.skip(1) =~= dims@.subrange(i as int, n as int));
        proof {
            lemma_suffix_product_le(dims@, i - 1);
        }
        assert(dims_product(s) == dims@[i - 1] as nat * cols);
        cols = dims[i - 1] * cols;
        i = i - 1;
    }
    assert(dims@.subrange(1, n as int) =~= dims@.skip(1));
    assert(data.len() == rows * cols);
    let mut out: Vec<T> = Vec::new();
    let mut c: usize = 0;
    while c < cols
        invariant
            c <= cols,
            data.len() == rows * cols,
            rows >= 2,
            cols == dims_product(dims@.skip(1)),
            rows == dims@[0],
            out@.len() == c,
            forall|k: int| 0 <= k < c ==> out@[k] == data@[k * rows],
        decreases cols - c,
    {
        assert(c * rows + rows <= cols * rows) by (nonlinear_arith)
            requires
                c < cols,
        ;
        out.push(data[c * rows]);
        c = c + 1;
    }
    assert(out@ =~= first_row_of(data@, dims@));
    out
}

/// Number of samples after the inter-frame silence (`frame_interval_us * bw_mhz * 2`
/// zeros) and, where that count is odd, one more zero.
pub open spec fn padded_len(n: int, bw_mhz: int, frame_interval_us: int) -> int {
    let m = n + frame_interval_us * bw_mhz * 2;
    if m % 2 == 1 {
        m + 1
    } else {
        m
    }
}

/// Appends the inter-frame silence to both sample arrays and evens their length, then
/// refuses a waveform shorter than `MIN_LEN` samples.
pub fn pad_iq<T: Copy>(
    in_phase: Vec<T>,
    quadrature: Vec<T>,
    zero: T,
    bw_mhz: usize,
    frame_interval_us: usize,
) -> (r: Result<(Vec<T>, Vec<T>), WaveformError>)
    requires
        in_phase.len() == quadrature.len(),
        in_phase.len() + frame_interval_us * bw_mhz * 2 + 1 <= usize::MAX,
    ensures
        padded_len(in_phase.len() as int, bw_mhz as int, frame_interval_us as int) < MIN_LEN ==> (
        r matches Err(WaveformError::TooShort(n)) && n == padded_len(
            in_phase.len() as int,
            bw_mhz as int,
            frame_interval_us as int,
        )),
        padded_len(in_phase.len() as int, bw_mhz as int, frame_interval_us as int) >= MIN_LEN ==> (
        r matches Ok((re, im)) && ({
            let m = padded_len(in_phase.len() as int, bw_mhz as int, frame_interval_us as int);
            &&& re@ == in_phase@ + Seq::new((m - in_phase.len()) as nat, |k: int| zero)
            &&& im@ == quadrature@ + Seq::new((m - quadrature.len()) as nat, |k: int| zero)
        })),
{
    let ghost target = padded_len(in_phase.len() as int, bw_mhz as int, frame_interval_us as int);
    assert(frame_interval_us * bw_mhz * 2 >= 0) by (nonlinear_arith);
    let zeros: usize = frame_interval_us * bw_mhz * 2;
    let m = in_phase.len() + zeros;
    let total = if m % 2 == 1 {
        m + 1
    } else {
        m
    };
    assert(total == target);
    if total < MIN_LEN {
        return Err(WaveformError::TooShort(total));
    }
    let n0 = in_phase.len();
    let mut re = in_phase;
    let mut im = quadrature;
    while re.len() < total
        invariant
            n0 <= re.len() <= total,
            re.len() == im.len(),
            total == target,
            re@ == in_phase@ + Seq::new((re.len() - n0) as nat, |k: int| zero),
            im@ == quadrature@ + Seq::new((im.len() - n0) as nat, |k: int| zero),
        decreases total - re.len(),
    {
        re.push(zero);
        im.push(zero);
        assert(re@ =~= in_phase@ + Seq::new((re.len() - n0) as nat, |k: int| zero));
        assert(im@ =~= quadrature@ + Seq::new((im.len() - n0) as nat, |k: int| zero));
    }
    Ok((re, im))
}

/// How large the largest magnitude of a numeric waveform is.
#[derive(Clone, Copy, Debug, PartialEq, Eq, Structural)]
pub enum PeakRange {
    /// Below 1.0: already normalized.
    BelowOne,
    /// From 1.0 to below 10.0.
    BelowTen,
    /// 10.0 or more.
    Large,
}

pub open spec fn scale_of(p: PeakRange) -> u32 {
    match p {
        PeakRange::BelowOne => 2047,
        PeakRange::BelowTen => 443,
        PeakRange::Large => 1,
    }
}

/// The scale that brings numeric I/Q into the 12-bit range before it is widened to 16 bits.
pub fn auto_scale(peak: PeakRange) -> (r: u32)
    ensures
        r == scale_of(peak),
{
    match peak {
        PeakRange::BelowOne => 2047,
        PeakRange::BelowTen => 443,
        PeakRange::Large => 1,
    }
}

pub open spec fn clamp_i16(v: int) -> int {
    if v < -32768 {
        -32768
    } else if v > 32767 {
        32767
    } else {
        v
    }
}

/// The two big-endian bytes of a 16-bit two's-complement value.
pub open spec fn be16(v: int) -> Seq<u8> {
    let u = (v + 65536) % 65536;
    seq![(u / 256) as u8, (u % 256) as u8]
}

/// The encoding of rounded I/Q samples: each clamped to 16 bits, I then Q, big-endian.
pub open spec fn iq_bytes(i: Seq<i64>, q: Seq<i64>) -> Seq<u8>
    decreases i.len(),
{
    if i.len() == 0 || q.len() == 0 {
        Seq::<u8>::empty()
    } else {
        iq_bytes(i.drop_last(), q.drop_last()) + be16(clamp_i16(i.last() as int)) + be16(
            clamp_i16(q.last() as int),
        )
    }
}

proof fn lemma_iq_bytes_len(i: Seq<i64>, q: Seq<i64>)
    requires
        i.len() == q.len(),
    ensures
        iq_bytes(i, q).len() == 4 * i.len(),
    decreases i.len(),
{
    if i.len() > 0 {
        lemma_iq_bytes_len(i.drop_last(), q.drop_last());
    }
}

/// Silence encodes as silence: `n` zero samples on both rails give `4 * n` zero bytes.
pub proof fn lemma_zero_samples_encode_to_zero_bytes(n: nat)
    ensures
        iq_bytes(Seq::new(n, |k: int| 0i64), Seq::new(n, |k: int| 0i64)) == Seq::new(
            4 * n,
            |k: int| 0u8,
        ),
    decreases n,
{
    let z = Seq::new(n, |k: int| 0i64);
    if n > 0 {
        lemma_zero_samples_encode_to_zero_bytes((n - 1) as nat);
        assert(z.drop_last() =~= Seq::new((n - 1) as nat, |k: int| 0i64));
        assert(be16(0) =~= seq![0u8, 0u8]);
        assert(iq_bytes(z, z) =~= Seq::new(4 * n, |k: int| 0u8));
    } else {
        assert(iq_bytes(z, z) =~= Seq::new(4 * n, |k: int| 0u8));
    }
}

fn push_be16(out: &mut Vec<u8>, v: i64)
    ensures
        final(out)@ == old(out)@ + be16(clamp_i16(v as int)),
{
    let c: i64 = if v < -32768 {
        -32768
    } else if v > 32767 {
        32767
    } else {
        v
    };
    let u: i64 = (c + 65536) % 65536;
    out.push((u / 256) as u8);
    out.push((u % 256) as u8);
    assert(final(out)@ =~= old(out)@ + be16(clamp_i16(v as int)));
}

/// Encodes rounded I/Q samples into the generator's format (see `iq_bytes`) and
/// describes the result.
pub fn encode_waveform(file_name: String, i_vals: &Vec<i64>, q_vals: &Vec<i64>) -> (r: (
    Vec<u8>,
    WaveformInfo,
))
    requires
        i_vals.len() == q_vals.len(),
        4 * i_vals.len() <= usize::MAX,
    ensures
        r.0@ == iq_bytes(i_vals@, q_vals@),
        r.0@.len() == 4 * i_vals.len(),
        r.1.file_name@ == file_name@,
        r.1.file_size == 4 * i_vals.len(),
        r.1.sample_count == i_vals.len(),
{
    let mut out: Vec<u8> = Vec::new();
    let mut s: usize = 0;
    while s < i_vals.len()
        invariant
            s <= i_vals.len() == q_vals.len(),
            out@ == iq_bytes(i_vals@.take(s as int), q_vals@.take(s as int)),
        decreases i_vals.len() - s,
    {
        assert(i_vals@.take(s + 1).drop_last() =~= i_vals@.take(s as int));
        assert(q_vals@.take(s + 1).drop_last() =~= q_vals@.take(s as int));
        push_be16(&mut out, i_vals[s]);
        push_be16(&mut out, q_vals[s]);
        s = s + 1;
    }
    assert(i_vals@.take(s as int) =~= i_vals@);
    assert(q_vals@.take(s as int) =~= q_vals@);
    proof {
        lemma_iq_bytes_len(i_vals@, q_vals@);
    }
    let n = i_vals.len();
    let info = WaveformInfo { file_name, file_size: 4 * n, sample_count: n };
    (out, info)
}

} // verus!
