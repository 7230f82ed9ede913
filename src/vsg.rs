use vstd::prelude::*;
use vstd::slice::slice_to_vec;
use vstd::string::*;

use crate::text::{dec_chars, decimal_text, hundredths_text, hundredths_to_text};

verus! {

/// The highest ARB sample clock rate that the generator takes, in Hz.
pub const MAX_SAMPLE_RATE_HZ: u64 = 240_000_000;

/// One exchange with the signal generator.
pub enum ScpiStep {
    /// Send a command line.
    Write(String),
    /// Send a command line and read the one-line reply.
    Query(String),
    /// Send a command followed by `data` as a definite-length block.
    WriteBlock { cmd: String, data: Vec<u8> },
    /// Drain the error queue; an error there ends the sequence.
    CheckErrors,
}

pub enum ScpiStepView {
    Write(Seq<char>),
    Query(Seq<char>),
    WriteBlock(Seq<char>, Seq<u8>),
    CheckErrors,
}

impl View for ScpiStep {
    type V = ScpiStepView;

    open spec fn view(&self) -> ScpiStepView {
        match self {
            ScpiStep::Write(c) => ScpiStepView::Write(c@),
            ScpiStep::Query(c) => ScpiStepView::Query(c@),
            ScpiStep::WriteBlock { cmd, data } => ScpiStepView::WriteBlock(cmd@, data@),
            ScpiStep::CheckErrors => ScpiStepView::CheckErrors,
        }
    }
}

pub open spec fn steps_view(v: Seq<ScpiStep>) -> Seq<ScpiStepView> {
    v.map_values(|s: ScpiStep| s@)
}

/// A setting that the generator rejects before any command is sent.
#[derive(Debug, PartialEq, Eq, Structural)]
pub enum VsgError {
    /// The sample clock rate, in Hz, is above `MAX_SAMPLE_RATE_HZ`.
    SampleRateTooHigh(u64),
}

pub open spec fn w(c: Seq<char>) -> ScpiStepView {
    ScpiStepView::Write(c)
}

/// Opening a session: an optional reset that waits for completion, then the identity query.
pub open spec fn connect_plan(reset: bool) -> Seq<ScpiStepView> {
    if reset {
        seq![w("*rst"@), ScpiStepView::Query("*opc?"@), ScpiStepView::Query("*idn?"@)]
    } else {
        seq![ScpiStepView::Query("*idn?"@)]
    }
}

pub open spec fn power_cmd(power_cdbm: int) -> Seq<char> {
    "power "@ + hundredths_text(power_cdbm)
}

pub open spec fn configure_plan(cf_hz: u64, fs_hz: u64, power_cdbm: i64) -> Seq<ScpiStepView> {
    seq![
        w("frequency "@ + dec_chars(cf_hz as nat)),
        w("radio:arb:sclock:rate "@ + dec_chars(fs_hz as nat)),
        w(power_cmd(power_cdbm as int)),
        ScpiStepView::CheckErrors,
    ]
}

/// The ARB file name of a waveform slot, quoted.
pub open spec fn wfm_name(id: Seq<char>) -> Seq<char> {
    "\"WFM1:"@ + id + "\""@
}

pub open spec fn select_cmd(id: Seq<char>) -> Seq<char> {
    "radio:arb:waveform "@ + wfm_name(id)
}

pub open spec fn download_plan(data: Seq<u8>, id: Seq<char>) -> Seq<ScpiStepView> {
    seq![
        w("output:modulation 0"@),
        w("radio:arb:state 0"@),
        ScpiStepView::WriteBlock("mmemory:data "@ + wfm_name(id) + ","@, data),
        w(select_cmd(id)),
        ScpiStepView::CheckErrors,
    ]
}

pub open spec fn play_plan(id: Seq<char>) -> Seq<ScpiStepView> {
    seq![
        w("radio:arb:trigger:type continuous"@),
        w(select_cmd(id)),
        w("output 1"@),
        w("output:modulation 1"@),
        w("radio:arb:state 1"@),
        ScpiStepView::CheckErrors,
    ]
}

/// Builds the sequence `seq_<id>` that plays the segment `count` times with no markers,
/// selects it, sets a bus-triggered single shot and turns the output chain on.
pub open spec fn arm_sequence_plan(id: Seq<char>, count: u32) -> Seq<ScpiStepView> {
    let seq_id = "seq_"@ + id;
    seq![
        w("radio:arb:sequence \""@ + seq_id + "\","@ + wfm_name(id) + ","@ + dec_chars(
            count as nat,
        ) + ",0"@),
        w("radio:arb:waveform \"SEQ:"@ + seq_id + "\""@),
        w("radio:arb:trigger:source bus"@),
        w("radio:arb:trigger:type single"@),
        w("radio:arb:state 1"@),
        w("output:modulation 1"@),
        w("output 1"@),
    ]
}

pub open spec fn trigger_plan() -> Seq<ScpiStepView> {
    seq![w("*TRG"@), ScpiStepView::CheckErrors]
}

pub open spec fn play_with_repeat_plan(id: Seq<char>, count: u32) -> Seq<ScpiStepView> {
    arm_sequence_plan(id, count) + trigger_plan()
}

pub open spec fn set_power_plan(power_cdbm: i64) -> Seq<ScpiStepView> {
    seq![w(power_cmd(power_cdbm as int)), ScpiStepView::CheckErrors]
}

pub open spec fn prepare_sweep_plan(
    data: Seq<u8>,
    id: Seq<char>,
    cf_hz: u64,
    fs_hz: u64,
    power_cdbm: i64,
    repeat_count: u32,
) -> Seq<ScpiStepView> {
    configure_plan(cf_hz, fs_hz, power_cdbm) + download_plan(data, id) + arm_sequence_plan(
        id,
        repeat_count,
    ) + seq![ScpiStepView::CheckErrors]
}

pub open spec fn stop_plan() -> Seq<ScpiStepView> {
    seq![w("output 0"@), w("output:modulation 0"@), w("radio:arb:state 0"@)]
}

/// Whether every step of a plan only sends a command line.
pub open spec fn only_writes(p: Seq<ScpiStepView>) -> bool {
    forall|i: int| 0 <= i < p.len() ==> #[trigger] p[i] is Write
}

/// Stopping reads nothing back from the generator and never drains its error queue, so
/// stopping twice in a row sends the same three command lines twice and no reply of the
/// instrument, whatever state it is in, can fail either call.
pub proof fn lemma_stop_twice_only_writes()
    ensures
        only_writes(stop_plan()),
        only_writes(stop_plan() + stop_plan()),
        (stop_plan() + stop_plan()).len() == 6,
{
    let twice = stop_plan() + stop_plan();
    assert forall|i: int| 0 <= i < twice.len() implies #[trigger] twice[i] is Write by {
        if i >= 3 {
            assert(twice[i] == stop_plan()[i - 3]);
        }
    }
}

fn push_write(steps: &mut Vec<ScpiStep>, cmd: String)
    ensures
        steps_view(final(steps)@) == steps_view(old(steps)@).push(w(cmd@)),
{
    steps.push(ScpiStep::Write(cmd));
    assert(steps_view(steps@) =~= steps_view(old(steps)@).push(w(cmd@)));
}

fn push_step(steps: &mut Vec<ScpiStep>, step: ScpiStep)
    ensures
        steps_view(final(steps)@) == steps_view(old(steps)@).push(step@),
{
    steps.push(step);
    assert(steps_view(steps@) =~= steps_view(old(steps)@).push(step@));
}

fn text_with(prefix: &str, tail: &str) -> (r: String)
    ensures
        r@ == prefix@ + tail@,
{
    let mut s = prefix.to_owned();
    s.append(tail);
    s
}

fn quoted_wfm(id: &str) -> (r: String)
    ensures
        r@ == wfm_name(id@),
{
    let mut s = "\"WFM1:".to_owned();
    s.append(id);
    s.append("\"");
    s
}

fn push_configure(steps: &mut Vec<ScpiStep>, cf_hz: u64, fs_hz: u64, power_cdbm: i64)
    ensures
        steps_view(final(steps)@) == steps_view(old(steps)@) + configure_plan(
            cf_hz,
            fs_hz,
            power_cdbm,
        ),
{
    push_write(steps, text_with("frequency ", decimal_text(cf_hz).as_str()));
    push_write(steps, text_with("radio:arb:sclock:rate ", decimal_text(fs_hz).as_str()));
    push_write(steps, text_with("power ", hundredths_to_text(power_cdbm).as_str()));
    push_step(steps, ScpiStep::CheckErrors);
    assert(steps_view(steps@) =~= steps_view(old(steps)@) + configure_plan(
        cf_hz,
        fs_hz,
        power_cdbm,
    ));
}

fn push_download(steps: &mut Vec<ScpiStep>, data: &[u8], id: &str)
    ensures
        steps_view(final(steps)@) == steps_view(old(steps)@) + download_plan(data@, id@),
{
    push_write(steps, "output:modulation 0".to_owned());
    push_write(steps, "radio:arb:state 0".to_owned());
    let mut cmd = "mmemory:data ".to_owned();
    cmd.append(quoted_wfm(id).as_str());
    cmd.append(",");
    push_step(steps, ScpiStep::WriteBlock { cmd, data: slice_to_vec(data) });
    push_write(steps, text_with("radio:arb:waveform ", quoted_wfm(id).as_str()));
    push_step(steps, ScpiStep::CheckErrors);
    assert(steps_view(steps@) =~= steps_view(old(steps)@) + download_plan(data@, id@));
}

fn push_arm_sequence(steps: &mut Vec<ScpiStep>, id: &str, count: u32)
    ensures
        steps_view(final(steps)@) == steps_view(old(steps)@) + arm_sequence_plan(id@, count),
{
    let seq_id = text_with("seq_", id);
    let mut build = "radio:arb:sequence \"".to_owned();
    build.append(seq_id.as_str());
    build.append("\",");
    build.append(quoted_wfm(id).as_str());
    build.append(",");
    build.append(decimal_text(count as u64).as_str());
    build.append(",0");
    push_write(steps, build);
    let mut select = "radio:arb:waveform \"SEQ:".to_owned();
    select.append(seq_id.as_str());
    select.append("\"");
    push_write(steps, select);
    push_write(steps, "radio:arb:trigger:source bus".to_owned());
    push_write(steps, "radio:arb:trigger:type single".to_owned());
    push_write(steps, "radio:arb:state 1".to_owned());
    push_write(steps, "output:modulation 1".to_owned());
    push_write(steps, "output 1".to_owned());
    assert(steps_view(steps@) =~= steps_view(old(steps)@) + arm_sequence_plan(id@, count));
}

fn push_trigger(steps: &mut Vec<ScpiStep>)
    ensures
        steps_view(final(steps)@) == steps_view(old(steps)@) + trigger_plan(),
{
    push_write(steps, "*TRG".to_owned());
    push_step(steps, ScpiStep::CheckErrors);
    assert(steps_view(steps@) =~= steps_view(old(steps)@) + trigger_plan());
}

fn push_play(steps: &mut Vec<ScpiStep>, id: &str)
    ensures
        steps_view(final(steps)@) == steps_view(old(steps)@) + play_plan(id@),
{
    push_write(steps, "radio:arb:trigger:type continuous".to_owned());
    push_write(steps, text_with("radio:arb:waveform ", quoted_wfm(id).as_str()));
    push_write(steps, "output 1".to_owned());
    push_write(steps, "output:modulation 1".to_owned());
    push_write(steps, "radio:arb:state 1".to_owned());
    push_step(steps, ScpiStep::CheckErrors);
    assert(steps_view(steps@) =~= steps_view(old(steps)@) + play_plan(id@));
}

/// The exchanges that open a session; the reply to the last query is the identity.
pub fn connect(reset: bool) -> (r: Vec<ScpiStep>)
    ensures
        steps_view(r@) == connect_plan(reset),
{
    let mut steps: Vec<ScpiStep> = Vec::new();
    if reset {
        push_write(&mut steps, "*rst".to_owned());
        push_step(&mut steps, ScpiStep::Query("*opc?".to_owned()));
    }
    push_step(&mut steps, ScpiStep::Query("*idn?".to_owned()));
    assert(steps_view(steps@) =~= connect_plan(reset));
    steps
}

/// Sets carrier frequency (Hz), ARB sample clock rate (Hz) and output power (hundredths
/// of a dBm), then checks for errors. A rate above `MAX_SAMPLE_RATE_HZ` is refused
/// before anything is sent.
pub fn configure(cf_hz: u64, fs_hz: u64, power_cdbm: i64) -> (r: Result<Vec<ScpiStep>, VsgError>)
    ensures
        fs_hz > MAX_SAMPLE_RATE_HZ ==> r == Err::<Vec<ScpiStep>, VsgError>(
            VsgError::SampleRateTooHigh(fs_hz),
        ),
        fs_hz <= MAX_SAMPLE_RATE_HZ ==> (r matches Ok(s) && steps_view(s@) == configure_plan(
            cf_hz,
            fs_hz,
            power_cdbm,
        )),
{
    if fs_hz > MAX_SAMPLE_RATE_HZ {
        return Err(VsgError::SampleRateTooHigh(fs_hz));
    }
    let mut steps: Vec<ScpiStep> = Vec::new();
    push_configure(&mut steps, cf_hz, fs_hz, power_cdbm);
    assert(steps_view(steps@) =~= configure_plan(cf_hz, fs_hz, power_cdbm));
    Ok(steps)
}

/// Uploads a waveform into slot `id` with ARB playback off, selects it, checks for errors.
pub fn download_wfm(data: &[u8], id: &str) -> (r: Vec<ScpiStep>)
    ensures
        steps_view(r@) == download_plan(data@, id@),
{
    let mut steps: Vec<ScpiStep> = Vec::new();
    push_download(&mut steps, data, id);
    assert(steps_view(steps@) =~= download_plan(data@, id@));
    steps
}

/// Plays waveform `id` in a continuous loop: output, then modulation, then ARB state.
pub fn play(id: &str) -> (r: Vec<ScpiStep>)
    ensures
        steps_view(r@) == play_plan(id@),
{
    let mut steps: Vec<ScpiStep> = Vec::new();
    push_play(&mut steps, id);
    assert(steps_view(steps@) =~= play_plan(id@));
    steps
}

/// Plays waveform `id` `count` times through a sequence started by a software trigger.
pub fn play_with_repeat(id: &str, count: u32) -> (r: Vec<ScpiStep>)
    ensures
        steps_view(r@) == play_with_repeat_plan(id@, count),
{
    let mut steps: Vec<ScpiStep> = Vec::new();
    push_arm_sequence(&mut steps, id, count);
    push_trigger(&mut steps);
    assert(steps_view(steps@) =~= play_with_repeat_plan(id@, count));
    steps
}

/// Changes the output power (hundredths of a dBm) alone, then checks for errors.
pub fn set_power(power_cdbm: i64) -> (r: Vec<ScpiStep>)
    ensures
        steps_view(r@) == set_power_plan(power_cdbm),
{
    let mut steps: Vec<ScpiStep> = Vec::new();
    push_write(&mut steps, text_with("power ", hundredths_to_text(power_cdbm).as_str()));
    push_step(&mut steps, ScpiStep::CheckErrors);
    assert(steps_view(steps@) =~= set_power_plan(power_cdbm));
    steps
}

/// Arms a sweep once: configures, uploads, builds the repeat sequence on a bus-triggered
/// single shot and turns the output chain on, without starting playback.
pub fn prepare_sweep(
    data: &[u8],
    id: &str,
    cf_hz: u64,
    fs_hz: u64,
    power_cdbm: i64,
    repeat_count: u32,
) -> (r: Result<Vec<ScpiStep>, VsgError>)
    ensures
        fs_hz > MAX_SAMPLE_RATE_HZ ==> r == Err::<Vec<ScpiStep>, VsgError>(
            VsgError::SampleRateTooHigh(fs_hz),
        ),
        fs_hz <= MAX_SAMPLE_RATE_HZ ==> (r matches Ok(s) && steps_view(s@)
            == prepare_sweep_plan(data@, id@, cf_hz, fs_hz, power_cdbm, repeat_count)),
{
    if fs_hz > MAX_SAMPLE_RATE_HZ {
        return Err(VsgError::SampleRateTooHigh(fs_hz));
    }
    let mut steps: Vec<ScpiStep> = Vec::new();
    push_configure(&mut steps, cf_hz, fs_hz, power_cdbm);
    push_download(&mut steps, data, id);
    push_arm_sequence(&mut steps, id, repeat_count);
    push_step(&mut steps, ScpiStep::CheckErrors);
    assert(steps_view(steps@) =~= prepare_sweep_plan(
        data@,
        id@,
        cf_hz,
        fs_hz,
        power_cdbm,
        repeat_count,
    ));
    Ok(steps)
}

/// Starts the prepared sequence with a software trigger, then checks for errors.
pub fn trigger() -> (r: Vec<ScpiStep>)
    ensures
        steps_view(r@) == trigger_plan(),
{
    let mut steps: Vec<ScpiStep> = Vec::new();
    push_trigger(&mut steps);
    assert(steps_view(steps@) =~= trigger_plan());
    steps
}

/// Turns RF output, modulation and ARB state off.
pub fn stop() -> (r: Vec<ScpiStep>)
    ensures
        steps_view(r@) == stop_plan(),
{
    let mut steps: Vec<ScpiStep> = Vec::new();
    push_write(&mut steps, "output 0".to_owned());
    push_write(&mut steps, "output:modulation 0".to_owned());
    push_write(&mut steps, "radio:arb:state 0".to_owned());
    assert(steps_view(steps@) =~= stop_plan());
    steps
}

/// The ARB sample clock rate for a channel width: twice the width, in Hz.
pub fn sample_rate_hz(bw_mhz: u32) -> (r: u64)
    ensures
        r == bw_mhz * 2_000_000,
{
    bw_mhz as u64 * 2_000_000
}

pub open spec fn play_waveform_plan(
    data: Seq<u8>,
    cf_hz: u64,
    bw_mhz: u32,
    power_cdbm: i64,
    repeat_count: u32,
) -> Seq<ScpiStepView> {
    configure_plan(cf_hz, (bw_mhz * 2_000_000) as u64, power_cdbm) + download_plan(
        data,
        "waveform"@,
    ) + if repeat_count > 0 {
        play_with_repeat_plan("waveform"@, repeat_count)
    } else {
        play_plan("waveform"@)
    }
}

/// Configures for a channel width (sample rate twice the width), uploads `data` as the
/// waveform `waveform`, and plays it `repeat_count` times, or in a loop when that is 0.
pub fn play_waveform(data: &[u8], cf_hz: u64, bw_mhz: u32, power_cdbm: i64, repeat_count: u32) -> (r:
    Result<Vec<ScpiStep>, VsgError>)
    ensures
        bw_mhz * 2_000_000 > MAX_SAMPLE_RATE_HZ ==> r == Err::<Vec<ScpiStep>, VsgError>(
            VsgError::SampleRateTooHigh((bw_mhz * 2_000_000) as u64),
        ),
        bw_mhz * 2_000_000 <= MAX_SAMPLE_RATE_HZ ==> (r matches Ok(s) && steps_view(s@)
            == play_waveform_plan(data@, cf_hz, bw_mhz, power_cdbm, repeat_count)),
{
    let fs = sample_rate_hz(bw_mhz);
    if fs > MAX_SAMPLE_RATE_HZ {
        return Err(VsgError::SampleRateTooHigh(fs));
    }
    let mut steps: Vec<ScpiStep> = Vec::new();
    push_configure(&mut steps, cf_hz, fs, power_cdbm);
    push_download(&mut steps, data, "waveform");
    if repeat_count > 0 {
        push_arm_sequence(&mut steps, "waveform", repeat_count);
        push_trigger(&mut steps);
    } else {
        push_play(&mut steps, "waveform");
    }
    assert(steps_view(steps@) =~= play_waveform_plan(
        data@,
        cf_hz,
        bw_mhz,
        power_cdbm,
        repeat_count,
    ));
    Ok(steps)
}

} // verus!
