//! Laws of trying decoders out.
use crate::common::{DataFormat, Platform, TEST_TIMEOUT_MS};
use crate::ffmpeg::AVHWDeviceType;
use crate::ffmpeg_ram;
use crate::ffmpeg_ram::candidates;
use crate::ffmpeg_ram::decode::{DecodeContext, Decoder};
use crate::ffmpeg_ram::laws;
use crate::ffmpeg_ram::probe;
use crate::ffmpeg_ram::probe::{ProbeSample, ProbeTrial};
use crate::ffmpeg_ram::{CodecInfo, CodecView};
use crate::laws::candidates::{law_codec_views, lemma_software_candidates};
use vstd::prelude::*;

verus! {

/// A trial passes exactly if decoding gave one frame or more, without an error, in
/// less than the time allowed, which is a second.
pub proof fn law_passes(trial: ProbeTrial, res: bool)
    requires
        call_ensures(ProbeTrial::passes, (&trial,), res),
    ensures
        trial.frames matches Ok(count) && count >= 1 && trial.elapsed_ms < 1000 ==> res,
        trial.frames is Err ==> !res,
        trial.frames matches Ok(count) && count == 0 ==> !res,
        trial.elapsed_ms >= 1000 ==> !res,
{
}

/// More frames or less time never make a trial fail that passed.
pub proof fn law_passes_is_monotone(a: ProbeTrial, b: ProbeTrial, res_a: bool, res_b: bool)
    requires
        call_ensures(ProbeTrial::passes, (&a,), res_a),
        call_ensures(ProbeTrial::passes, (&b,), res_b),
        a.frames is Ok,
        b.frames is Ok,
        a.frames->Ok_0 <= b.frames->Ok_0,
        b.elapsed_ms <= a.elapsed_ms,
    ensures
        res_a ==> res_b,
{
}

/// There is a sample in each of H.264, H.265 and AV1, and in no other format.
pub proof fn law_samples(format: DataFormat, res: Option<ProbeSample>)
    requires
        call_ensures(ProbeSample::for_format, (format,), res),
    ensures
        res == Some(ProbeSample::H264) <==> format == DataFormat::H264,
        res == Some(ProbeSample::H265) <==> format == DataFormat::H265,
        res == Some(ProbeSample::AV1) <==> format == DataFormat::AV1,
        res is None <==> format == DataFormat::VP8 || format == DataFormat::VP9,
{
}

/// To be tried out, a decoder is opened under its own name, on its own device, with
/// four threads.
pub proof fn law_probe_context(codec: CodecInfo)
    ensures
        probe::probe_context(codec).name@ == codec.name@,
        probe::probe_context(codec).device_type == codec.hwdevice,
        probe::probe_context(codec).thread_count == 4,
{
}

/// The sample is in the format.
pub open spec fn is_sample_in(sample: ProbeSample, format: DataFormat) -> bool {
    match sample {
        ProbeSample::H264 => format == DataFormat::H264,
        ProbeSample::H265 => format == DataFormat::H265,
        ProbeSample::AV1 => format == DataFormat::AV1,
    }
}

/// `codec` was opened under its own name and on its own device, with four threads, and
/// then decoded the sample in its format, with one frame or more and in time.
pub open spec fn worked<
    D,
    O: Fn(DecodeContext) -> Option<D>,
    T: Fn(D, ProbeSample) -> ProbeTrial,
>(open: &O, attempt: &T, codec: CodecInfo) -> bool {
    exists|ctx: DecodeContext, decoder: D, sample: ProbeSample, trial: ProbeTrial|
        {
            &&& ctx.name@ == codec.name@
            &&& ctx.device_type == codec.hwdevice
            &&& ctx.thread_count == 4
            &&& #[trigger] call_ensures(*open, (ctx,), Some(decoder))
            &&& is_sample_in(sample, codec.format)
            &&& #[trigger] call_ensures(*attempt, (decoder, sample), trial)
            &&& trial.frames is Ok
            &&& trial.frames->Ok_0 >= 1
            &&& trial.elapsed_ms < TEST_TIMEOUT_MS
        }
}

/// `codec` could not be opened under its name and on its device, or has a format
/// without a sample, or decoded the sample with an error, without a frame or too late.
pub open spec fn failed<
    D,
    O: Fn(DecodeContext) -> Option<D>,
    T: Fn(D, ProbeSample) -> ProbeTrial,
>(open: &O, attempt: &T, codec: CodecInfo) -> bool {
    exists|ctx: DecodeContext, opened: Option<D>|
        {
            &&& ctx.name@ == codec.name@
            &&& ctx.device_type == codec.hwdevice
            &&& ctx.thread_count == 4
            &&& #[trigger] call_ensures(*open, (ctx,), opened)
            &&& {
                ||| opened is None
                ||| codec.format == DataFormat::VP8
                ||| codec.format == DataFormat::VP9
                ||| exists|sample: ProbeSample, trial: ProbeTrial|
                    {
                        &&& is_sample_in(sample, codec.format)
                        &&& #[trigger] call_ensures(*attempt, (opened->0, sample), trial)
                        &&& {
                            ||| trial.frames is Err
                            ||| trial.frames == Ok::<usize, i32>(0)
                            ||| trial.elapsed_ms >= TEST_TIMEOUT_MS
                        }
                    }
            }
        }
}

/// What trying a decoder out can come to: it passes only if it worked, and does not
/// pass only if it failed.
pub proof fn law_probe_outcome<
    D,
    O: Fn(DecodeContext) -> Option<D>,
    T: Fn(D, ProbeSample) -> ProbeTrial,
>(open: &O, attempt: &T, codec: CodecInfo, passed: bool)
    requires
        probe::probe_outcome(open, attempt, codec, passed),
    ensures
        passed ==> worked(open, attempt, codec),
        !passed ==> failed(open, attempt, codec),
{
    let ctx = probe::probe_context(codec);
    let opened = choose|opened: Option<D>|
        {
            &&& #[trigger] call_ensures(*open, (ctx,), opened)
            &&& match (opened, ProbeSample::spec_for_format(codec.format)) {
                (Some(decoder), Some(sample)) => exists|trial: ProbeTrial|
                    {
                        &&& #[trigger] call_ensures(*attempt, (decoder, sample), trial)
                        &&& passed == trial.spec_passes()
                    },
                _ => !passed,
            }
        };
    if let (Some(decoder), Some(sample)) = (opened, ProbeSample::spec_for_format(codec.format)) {
        let trial = choose|trial: ProbeTrial|
            {
                &&& #[trigger] call_ensures(*attempt, (decoder, sample), trial)
                &&& passed == trial.spec_passes()
            };
        assert(is_sample_in(sample, codec.format));
        assert(call_ensures(*attempt, (opened->0, sample), trial));
    }
}

/// The other way round: a decoder that opens and has a trial with a frame and in time
/// can pass, and one that does not open need not.
pub proof fn law_probe_outcome_is_reached<
    D,
    O: Fn(DecodeContext) -> Option<D>,
    T: Fn(D, ProbeSample) -> ProbeTrial,
>(
    open: &O,
    attempt: &T,
    codec: CodecInfo,
    ctx: DecodeContext,
    decoder: D,
    sample: ProbeSample,
    trial: ProbeTrial,
)
    requires
        ctx.name == codec.name,
        ctx.device_type == codec.hwdevice,
        ctx.thread_count == 4,
        is_sample_in(sample, codec.format),
        call_ensures(*open, (ctx,), Some(decoder)),
        call_ensures(*attempt, (decoder, sample), trial),
    ensures
        trial.frames is Ok && trial.frames->Ok_0 >= 1 && trial.elapsed_ms < TEST_TIMEOUT_MS
            ==> probe::probe_outcome(open, attempt, codec, true),
        trial.frames is Err || trial.frames->Ok_0 == 0 || trial.elapsed_ms >= TEST_TIMEOUT_MS
            ==> probe::probe_outcome(open, attempt, codec, false),
{
    assert(ctx == probe::probe_context(codec));
    assert(call_ensures(*open, (probe::probe_context(codec),), Some(decoder)));
    assert(ProbeSample::spec_for_format(codec.format) == Some(sample));
}

/// A decoder may be tried out exactly if it may be opened under its own name, on its
/// own device and with four threads, and what that gives may be handed the sample in
/// its format.
pub proof fn law_can_try<
    D,
    O: Fn(DecodeContext) -> Option<D>,
    T: Fn(D, ProbeSample) -> ProbeTrial,
>(open: &O, attempt: &T, codec: CodecInfo, ctx: DecodeContext)
    requires
        ctx.name == codec.name,
        ctx.device_type == codec.hwdevice,
        ctx.thread_count == 4,
    ensures
        probe::can_try(open, attempt, codec) <==> {
            &&& call_requires(*open, (ctx,))
            &&& forall|decoder: D, sample: ProbeSample|
                call_ensures(*open, (ctx,), Some(decoder)) && is_sample_in(sample, codec.format)
                    ==> #[trigger] call_requires(*attempt, (decoder, sample))
        },
{
    assert(ctx == probe::probe_context(codec));
    if probe::can_try(open, attempt, codec) {
        assert forall|decoder: D, sample: ProbeSample|
            call_ensures(*open, (ctx,), Some(decoder)) && is_sample_in(
                sample,
                codec.format,
            ) implies #[trigger] call_requires(*attempt, (decoder, sample)) by {
            assert(ProbeSample::spec_for_format(codec.format) == Some(sample));
        }
    }
    if call_requires(*open, (ctx,)) && forall|decoder: D, sample: ProbeSample|
        call_ensures(*open, (ctx,), Some(decoder)) && is_sample_in(sample, codec.format)
            ==> #[trigger] call_requires(*attempt, (decoder, sample)) {
        assert forall|decoder: D, sample: ProbeSample|
            call_ensures(*open, (ctx,), Some(decoder)) && ProbeSample::spec_for_format(codec.format)
                == Some(sample) implies #[trigger] call_requires(*attempt, (decoder, sample)) by {
            assert(is_sample_in(sample, codec.format));
        }
    }
}

/// Numbers that grow, each the position of one of `len` entries.
pub open spec fn ascending(picks: Seq<int>, len: nat) -> bool {
    &&& forall|k: int| 0 <= k < picks.len() ==> 0 <= #[trigger] picks[k] < len
    &&& forall|j: int, k: int| 0 <= j < k < picks.len() ==> #[trigger] picks[j] < #[trigger] picks[k]
}

/// The entry has a good verdict, and no entry before it with the same name, on the same
/// device, has one.
pub open spec fn leads(codecs: Seq<CodecView>, verdicts: Seq<bool>, i: int) -> bool {
    &&& verdicts[i]
    &&& forall|j: int|
        0 <= j < i && #[trigger] verdicts[j] ==> codecs[j].name != codecs[i].name
            || codecs[j].hwdevice != codecs[i].hwdevice
}

/// `kept` are the entries that lead, in their order; `picks` are their positions.
pub open spec fn are_leading(
    picks: Seq<int>,
    kept: Seq<CodecView>,
    codecs: Seq<CodecView>,
    verdicts: Seq<bool>,
) -> bool {
    &&& ascending(picks, codecs.len())
    &&& kept.len() == picks.len()
    &&& forall|k: int| 0 <= k < kept.len() ==> #[trigger] kept[k] == codecs[picks[k]]
    &&& forall|i: int|
        0 <= i < codecs.len() ==> (#[trigger] picks.contains(i) <==> leads(codecs, verdicts, i))
}

/// What is kept of a list, given a verdict on each entry: exactly the entries with a
/// good verdict before which no other with the same name, on the same device, has one.
/// They stay in their order and as they are.
pub proof fn law_retained(codecs: Seq<CodecView>, verdicts: Seq<bool>)
    requires
        verdicts.len() == codecs.len(),
    ensures
        exists|picks: Seq<int>|
            are_leading(picks, probe::retained(codecs, verdicts), codecs, verdicts),
    decreases codecs.len(),
{
    let kept = probe::retained(codecs, verdicts);
    if codecs.len() == 0 {
        assert(are_leading(Seq::empty(), kept, codecs, verdicts));
    } else {
        let last = codecs.len() - 1;
        let shorter = codecs.drop_last();
        let fewer = verdicts.drop_last();
        law_retained(shorter, fewer);
        probe::lemma_retained_prefix(shorter, fewer, verdicts);
        let before = probe::retained(shorter, fewer);
        let front = choose|picks: Seq<int>| are_leading(picks, before, shorter, fewer);
        laws::law_backend_kept_iff_passed(shorter, fewer, codecs[last]);
        let picked = verdicts[last] && !probe::has_backend(before, codecs[last]);
        let picks = if picked {
            front.push(last)
        } else {
            front
        };
        assert(kept == if picked {
            before.push(codecs[last])
        } else {
            before
        });
        assert(picked == leads(codecs, verdicts, last)) by {
            if probe::has_backend(before, codecs[last]) {
                let j = choose|j: int|
                    0 <= j < shorter.len() && fewer[j] && probe::same_backend(
                        #[trigger] shorter[j],
                        codecs[last],
                    );
                assert(verdicts[j]);
            } else {
                assert forall|j: int| 0 <= j < last && #[trigger] verdicts[j] implies codecs[j].name
                    != codecs[last].name || codecs[j].hwdevice != codecs[last].hwdevice by {
                    assert(fewer[j]);
                    assert(!probe::same_backend(shorter[j], codecs[last]));
                }
            }
        }
        assert forall|k: int| 0 <= k < picks.len() implies 0 <= #[trigger] picks[k]
            < codecs.len() by {
            if k < front.len() {
                assert(picks[k] == front[k]);
            }
        }
        assert forall|j: int, k: int| 0 <= j < k < picks.len() implies #[trigger] picks[j]
            < #[trigger] picks[k] by {
            assert(picks[j] == front[j]);
            if k < front.len() {
                assert(picks[k] == front[k]);
            }
        }
        assert forall|k: int| 0 <= k < kept.len() implies #[trigger] kept[k]
            == codecs[picks[k]] by {
            if k < front.len() {
                assert(kept[k] == before[k]);
                assert(picks[k] == front[k]);
            }
        }
        assert forall|i: int| 0 <= i < codecs.len() implies (#[trigger] picks.contains(i)
            <==> leads(codecs, verdicts, i)) by {
            if i < last {
                lemma_leads_in_front(codecs, verdicts, i);
                if front.contains(i) {
                    let k = front.index_of(i);
                    assert(picks[k] == i);
                }
                if picks.contains(i) {
                    let k = picks.index_of(i);
                    assert(front[k] == i);
                }
            } else {
                if picked {
                    assert(picks[picks.len() - 1] == last);
                }
                if picks.contains(last) && !picked {
                    let k = picks.index_of(last);
                    assert(front[k] < shorter.len());
                }
            }
        }
        assert(are_leading(picks, kept, codecs, verdicts));
    }
}

proof fn lemma_leads_in_front(codecs: Seq<CodecView>, verdicts: Seq<bool>, i: int)
    requires
        verdicts.len() == codecs.len(),
        0 <= i < codecs.len() - 1,
    ensures
        leads(codecs, verdicts, i) == leads(codecs.drop_last(), verdicts.drop_last(), i),
{
    let shorter = codecs.drop_last();
    let fewer = verdicts.drop_last();
    assert(forall|j: int| 0 <= j <= i ==> fewer[j] == verdicts[j] && shorter[j] == codecs[j]);
    if leads(codecs, verdicts, i) {
        assert forall|j: int| 0 <= j < i && #[trigger] fewer[j] implies shorter[j].name
            != shorter[i].name || shorter[j].hwdevice != shorter[i].hwdevice by {
            assert(verdicts[j]);
        }
    }
    if leads(shorter, fewer, i) {
        assert forall|j: int| 0 <= j < i && #[trigger] verdicts[j] implies codecs[j].name
            != codecs[i].name || codecs[j].hwdevice != codecs[i].hwdevice by {
            assert(fewer[j]);
        }
    }
}

/// A candidate is tried out exactly if no earlier one with the same name, on the same
/// device, has a good verdict.
pub proof fn law_is_probed(codecs: Seq<CodecView>, verdicts: Seq<bool>, i: int)
    requires
        0 <= i < codecs.len(),
        i <= verdicts.len(),
    ensures
        probe::is_probed(codecs, verdicts, i) <==> forall|j: int|
            0 <= j < i && #[trigger] verdicts[j] ==> codecs[j].name != codecs[i].name
                || codecs[j].hwdevice != codecs[i].hwdevice,
{
    let front = codecs.take(i);
    probe::lemma_retained_prefix(front, verdicts.take(i), verdicts);
    laws::law_backend_kept_iff_passed(front, verdicts.take(i), codecs[i]);
    if probe::has_backend(probe::retained(front, verdicts), codecs[i]) {
        let j = choose|j: int|
            0 <= j < front.len() && verdicts.take(i)[j] && probe::same_backend(
                #[trigger] front[j],
                codecs[i],
            );
        assert(verdicts[j]);
    } else {
        assert forall|j: int| 0 <= j < i && #[trigger] verdicts[j] implies codecs[j].name
            != codecs[i].name || codecs[j].hwdevice != codecs[i].hwdevice by {
            assert(verdicts.take(i)[j]);
            assert(!probe::same_backend(front[j], codecs[i]));
        }
    }
}

/// `picks` are the candidates that are kept, by their positions: in order, no two with
/// the same name on the same device, and every other candidate either failed or has a
/// kept one with its name and device before it.
pub open spec fn are_kept(picks: Seq<int>, codecs: Seq<CodecInfo>, failing: spec_fn(int) -> bool) -> bool {
    &&& ascending(picks, codecs.len())
    &&& forall|j: int, k: int|
        0 <= j < k < picks.len() ==> codecs[#[trigger] picks[j]].name@
            != codecs[#[trigger] picks[k]].name@ || codecs[picks[j]].hwdevice
            != codecs[picks[k]].hwdevice
    &&& forall|i: int|
        0 <= i < codecs.len() && !#[trigger] picks.contains(i) ==> {
            ||| exists|k: int|
                0 <= k < picks.len() && #[trigger] picks[k] < i && codecs[picks[k]].name@
                    == codecs[i].name@ && codecs[picks[k]].hwdevice == codecs[i].hwdevice
            ||| failing(i)
        }
}

/// The list holds the picked entries, each in every field as it was.
pub open spec fn is_list_of(res: Seq<CodecInfo>, codecs: Seq<CodecInfo>, picks: Seq<int>) -> bool {
    &&& res.len() == picks.len()
    &&& forall|k: int|
        0 <= k < res.len() ==> {
            &&& (#[trigger] res[k]).name@ == codecs[picks[k]].name@
            &&& res[k].mc_name is Some <==> codecs[picks[k]].mc_name is Some
            &&& res[k].mc_name is Some ==> res[k].mc_name->0@ == codecs[picks[k]].mc_name->0@
            &&& res[k].format == codecs[picks[k]].format
            &&& res[k].priority == codecs[picks[k]].priority
            &&& res[k].hwdevice == codecs[picks[k]].hwdevice
        }
}

proof fn lemma_kept(res: Seq<CodecInfo>, codecs: Seq<CodecInfo>, verdicts: Seq<bool>) -> (picks: Seq<
    int,
>)
    requires
        verdicts.len() == codecs.len(),
        ffmpeg_ram::codec_views(res) == probe::retained(ffmpeg_ram::codec_views(codecs), verdicts),
    ensures
        is_list_of(res, codecs, picks),
        are_kept(
            picks,
            codecs,
            |i: int|
                !verdicts[i] && probe::is_probed(ffmpeg_ram::codec_views(codecs), verdicts, i),
        ),
        forall|k: int|
            0 <= k < picks.len() ==> verdicts[#[trigger] picks[k]] && probe::is_probed(
                ffmpeg_ram::codec_views(codecs),
                verdicts,
                picks[k],
            ),
{
    let views = ffmpeg_ram::codec_views(codecs);
    let kept = probe::retained(views, verdicts);
    let failing = |i: int| !verdicts[i] && probe::is_probed(views, verdicts, i);
    law_retained(views, verdicts);
    law_codec_views(codecs, codecs);
    law_codec_views(res, res);
    let picks = choose|picks: Seq<int>| are_leading(picks, kept, views, verdicts);
    assert forall|k: int| 0 <= k < picks.len() implies picks.contains(#[trigger] picks[k]) by {}
    assert forall|k: int| 0 <= k < picks.len() implies verdicts[#[trigger] picks[k]]
        && probe::is_probed(views, verdicts, picks[k]) by {
        let i = picks[k];
        assert(0 <= i < codecs.len());
        assert(picks.contains(i));
        law_is_probed(views, verdicts, i);
    }
    assert forall|j: int, k: int| 0 <= j < k < picks.len() implies codecs[#[trigger] picks[j]].name@
        != codecs[#[trigger] picks[k]].name@ || codecs[picks[j]].hwdevice
        != codecs[picks[k]].hwdevice by {
        assert(picks.contains(picks[k]));
        assert(verdicts[picks[j]]);
        assert(views[picks[j]] == codecs[picks[j]]@);
        assert(views[picks[k]] == codecs[picks[k]]@);
    }
    assert forall|i: int| 0 <= i < codecs.len() && !#[trigger] picks.contains(i) implies {
        ||| exists|k: int|
            0 <= k < picks.len() && #[trigger] picks[k] < i && codecs[picks[k]].name@
                == codecs[i].name@ && codecs[picks[k]].hwdevice == codecs[i].hwdevice
        ||| failing(i)
    } by {
        law_is_probed(views, verdicts, i);
        if !probe::is_probed(views, verdicts, i) {
            let j = choose|j: int|
                0 <= j < i && #[trigger] verdicts[j] && views[j].name == views[i].name
                    && views[j].hwdevice == views[i].hwdevice;
            let m = lemma_first(views, verdicts, j);
            assert(leads(views, verdicts, m));
            assert(picks.contains(m));
            let k = picks.index_of(m);
            assert(picks[k] == m);
            assert(views[m] == codecs[m]@);
            assert(views[i] == codecs[i]@);
        } else if verdicts[i] {
            assert(leads(views, verdicts, i));
        } else {
            assert(failing(i));
        }
    }
    assert forall|k: int| 0 <= k < res.len() implies ffmpeg_ram::codec_views(res)[k]
        == #[trigger] views[picks[k]] by {
        assert(kept[k] == views[picks[k]]);
    }
    assert forall|k: int| 0 <= k < res.len() implies {
        &&& (#[trigger] res[k]).name@ == codecs[picks[k]].name@
        &&& res[k].mc_name is Some <==> codecs[picks[k]].mc_name is Some
        &&& res[k].mc_name is Some ==> res[k].mc_name->0@ == codecs[picks[k]].mc_name->0@
        &&& res[k].format == codecs[picks[k]].format
        &&& res[k].priority == codecs[picks[k]].priority
        &&& res[k].hwdevice == codecs[picks[k]].hwdevice
    } by {
        assert(kept[k] == views[picks[k]]);
        assert(ffmpeg_ram::codec_views(res)[k] == res[k]@);
        assert(views[picks[k]] == codecs[picks[k]]@);
    }
    picks
}

/// The first entry with a good verdict that has the name and device of a given one.
proof fn lemma_first(codecs: Seq<CodecView>, verdicts: Seq<bool>, j: int) -> (m: int)
    requires
        verdicts.len() == codecs.len(),
        0 <= j < codecs.len(),
        verdicts[j],
    ensures
        0 <= m <= j,
        verdicts[m],
        codecs[m].name == codecs[j].name,
        codecs[m].hwdevice == codecs[j].hwdevice,
        forall|i: int|
            0 <= i < m && #[trigger] verdicts[i] ==> codecs[i].name != codecs[m].name
                || codecs[i].hwdevice != codecs[m].hwdevice,
    decreases j,
{
    if forall|i: int|
        0 <= i < j && #[trigger] verdicts[i] ==> codecs[i].name != codecs[j].name
            || codecs[i].hwdevice != codecs[j].hwdevice {
        j
    } else {
        let i = choose|i: int|
            0 <= i < j && #[trigger] verdicts[i] && codecs[i].name == codecs[j].name
                && codecs[i].hwdevice == codecs[j].hwdevice;
        lemma_first(codecs, verdicts, i)
    }
}

/// What is kept with a prober: `probe` said of each entry kept that it works, no two of
/// them have the same name on the same device, and of each entry left out `probe` said
/// that it does not work, unless one with its name and device was kept before it. The
/// order and every field stay.
pub proof fn law_probe_decoders_with<F: FnMut(&CodecInfo) -> bool>(
    codecs: Vec<CodecInfo>,
    probe: F,
    res: Vec<CodecInfo>,
)
    requires
        call_ensures(Decoder::probe_decoders_with::<F>, (codecs, probe), res),
    ensures
        exists|picks: Seq<int>|
            {
                &&& #[trigger] is_list_of(res@, codecs@, picks)
                &&& are_kept(picks, codecs@, |i: int| call_ensures(probe, (&codecs@[i],), false))
                &&& forall|k: int|
                    0 <= k < picks.len() ==> call_ensures(
                        probe,
                        (&codecs@[#[trigger] picks[k]],),
                        true,
                    )
            },
{
    let verdicts = choose|verdicts: Seq<bool>|
        {
            &&& verdicts.len() == codecs@.len()
            &&& #[trigger] probe::given_by(probe, codecs@, verdicts, codecs@.len() as int)
            &&& ffmpeg_ram::codec_views(res@) == probe::retained(
                ffmpeg_ram::codec_views(codecs@),
                verdicts,
            )
        };
    let views = ffmpeg_ram::codec_views(codecs@);
    let picks = lemma_kept(res@, codecs@, verdicts);
    let unsaid = |i: int| !verdicts[i] && probe::is_probed(views, verdicts, i);
    let failing = |i: int| call_ensures(probe, (&codecs@[i],), false);
    assert(are_kept(picks, codecs@, unsaid));
    assert forall|i: int| 0 <= i < codecs@.len() && #[trigger] unsaid(i) implies failing(i) by {
        let verdict = verdicts[i];
        assert(call_ensures(probe, (&codecs@[i],), verdict));
    }
    lemma_kept_weakens(picks, codecs@, unsaid, failing);
    assert forall|k: int| 0 <= k < picks.len() implies call_ensures(
        probe,
        (&codecs@[#[trigger] picks[k]],),
        true,
    ) by {
        let verdict = verdicts[picks[k]];
        assert(call_ensures(probe, (&codecs@[picks[k]],), verdict));
    }
    assert(is_list_of(res@, codecs@, picks));
}

proof fn lemma_kept_weakens(
    picks: Seq<int>,
    codecs: Seq<CodecInfo>,
    a: spec_fn(int) -> bool,
    b: spec_fn(int) -> bool,
)
    requires
        are_kept(picks, codecs, a),
        forall|i: int| 0 <= i < codecs.len() && #[trigger] a(i) ==> b(i),
    ensures
        are_kept(picks, codecs, b),
{
    assert forall|i: int| 0 <= i < codecs.len() && !#[trigger] picks.contains(i) implies {
        ||| exists|k: int|
            0 <= k < picks.len() && #[trigger] picks[k] < i && codecs[picks[k]].name@
                == codecs[i].name@ && codecs[picks[k]].hwdevice == codecs[i].hwdevice
        ||| b(i)
    } by {
        if a(i) {
            assert(b(i));
        }
    }
}

proof fn lemma_tried_out<
    D,
    O: Fn(DecodeContext) -> Option<D>,
    T: Fn(D, ProbeSample) -> ProbeTrial,
>(
    open: &O,
    attempt: &T,
    res: Seq<CodecInfo>,
    codecs: Seq<CodecInfo>,
    verdicts: Seq<bool>,
) -> (picks: Seq<int>)
    requires
        probe::tried_out(open, attempt, codecs, verdicts),
        ffmpeg_ram::codec_views(res) == probe::retained(ffmpeg_ram::codec_views(codecs), verdicts),
    ensures
        is_list_of(res, codecs, picks),
        are_kept(picks, codecs, |i: int| failed(open, attempt, codecs[i])),
        forall|k: int|
            0 <= k < picks.len() ==> worked(open, attempt, codecs[#[trigger] picks[k]]),
{
    let views = ffmpeg_ram::codec_views(codecs);
    let picks = lemma_kept(res, codecs, verdicts);
    let unsaid = |i: int| !verdicts[i] && probe::is_probed(views, verdicts, i);
    let failing = |i: int| failed(open, attempt, codecs[i]);
    assert(are_kept(picks, codecs, unsaid));
    assert forall|i: int| 0 <= i < codecs.len() && #[trigger] unsaid(i) implies failing(i) by {
        assert(probe::probe_outcome(open, attempt, codecs[i], verdicts[i]));
        law_probe_outcome(open, attempt, codecs[i], false);
    }
    lemma_kept_weakens(picks, codecs, unsaid, failing);
    assert forall|k: int| 0 <= k < picks.len() implies worked(
        open,
        attempt,
        codecs[#[trigger] picks[k]],
    ) by {
        let i = picks[k];
        assert(probe::probe_outcome(open, attempt, codecs[i], verdicts[i]));
        law_probe_outcome(open, attempt, codecs[i], true);
    }
    picks
}

/// What is kept of a list: each entry kept was opened and decoded its sample with a
/// frame and in time; no two have the same name on the same device; and each left out
/// failed, unless one with its name and device was kept before it. The order and every
/// field stay.
pub proof fn law_probe_decoders<
    D,
    O: Fn(DecodeContext) -> Option<D>,
    T: Fn(D, ProbeSample) -> ProbeTrial,
>(codecs: Vec<CodecInfo>, open: O, attempt: T, res: Vec<CodecInfo>)
    requires
        call_ensures(Decoder::probe_decoders::<D, O, T>, (codecs, open, attempt), res),
    ensures
        exists|picks: Seq<int>|
            {
                &&& #[trigger] is_list_of(res@, codecs@, picks)
                &&& are_kept(picks, codecs@, |i: int| failed(&open, &attempt, codecs@[i]))
                &&& forall|k: int|
                    0 <= k < picks.len() ==> worked(
                        &open,
                        &attempt,
                        codecs@[#[trigger] picks[k]],
                    )
            },
{
    let verdicts = choose|verdicts: Seq<bool>|
        {
            &&& #[trigger] probe::tried_out(&open, &attempt, codecs@, verdicts)
            &&& ffmpeg_ram::codec_views(res@) == probe::retained(
                ffmpeg_ram::codec_views(codecs@),
                verdicts,
            )
        };
    let picks = lemma_tried_out(&open, &attempt, res@, codecs@, verdicts);
    assert(is_list_of(res@, codecs@, picks));
}

/// Whatever the time taken, every decoder that is found on a machine had a trial with
/// one frame or more, no error, and less time than is allowed, after it was opened
/// under its own name and on its own device.
pub proof fn law_available_decoders_worked<
    D,
    O: Fn(DecodeContext) -> Option<D>,
    T: Fn(D, ProbeSample) -> ProbeTrial,
>(platform: Platform, open: O, attempt: T, res: Vec<CodecInfo>, k: int)
    requires
        call_ensures(Decoder::available_decoders::<D, O, T>, (platform, open, attempt), res),
        0 <= k < res@.len(),
    ensures
        exists|ctx: DecodeContext, decoder: D, sample: ProbeSample, trial: ProbeTrial|
            {
                &&& ctx.name@ == res@[k].name@
                &&& ctx.device_type == res@[k].hwdevice
                &&& ctx.thread_count == 4
                &&& #[trigger] call_ensures(open, (ctx,), Some(decoder))
                &&& sample == ProbeSample::H264 <==> res@[k].format == DataFormat::H264
                &&& sample == ProbeSample::H265 <==> res@[k].format == DataFormat::H265
                &&& sample == ProbeSample::AV1 <==> res@[k].format == DataFormat::AV1
                &&& #[trigger] call_ensures(attempt, (decoder, sample), trial)
                &&& trial.frames matches Ok(n) && n >= 1
                &&& trial.elapsed_ms < TEST_TIMEOUT_MS
            },
{
    let (codecs, verdicts) = choose|codecs: Seq<CodecInfo>, verdicts: Seq<bool>|
        {
            &&& ffmpeg_ram::codec_views(codecs) == candidates::candidates(platform)
            &&& #[trigger] probe::tried_out(&open, &attempt, codecs, verdicts)
            &&& ffmpeg_ram::codec_views(res@) == probe::retained(
                candidates::candidates(platform),
                verdicts,
            )
        };
    let picks = lemma_tried_out(&open, &attempt, res@, codecs, verdicts);
    let codec = codecs[picks[k]];
    assert(worked(&open, &attempt, codec));
    assert(res@[k].name@ == codec.name@);
    let (ctx, decoder, sample, trial) = choose|
        ctx: DecodeContext,
        decoder: D,
        sample: ProbeSample,
        trial: ProbeTrial,
    |
        {
            &&& ctx.name@ == codec.name@
            &&& ctx.device_type == codec.hwdevice
            &&& ctx.thread_count == 4
            &&& #[trigger] call_ensures(open, (ctx,), Some(decoder))
            &&& is_sample_in(sample, codec.format)
            &&& #[trigger] call_ensures(attempt, (decoder, sample), trial)
            &&& trial.frames is Ok
            &&& trial.frames->Ok_0 >= 1
            &&& trial.elapsed_ms < TEST_TIMEOUT_MS
        };
    assert(call_ensures(open, (ctx,), Some(decoder)));
    assert(call_ensures(attempt, (decoder, sample), trial));
}

/// What is found on a machine is kept of the machine's candidates, in their order and
/// as they are; every candidate that is left out failed.
pub proof fn law_available_decoders<
    D,
    O: Fn(DecodeContext) -> Option<D>,
    T: Fn(D, ProbeSample) -> ProbeTrial,
>(platform: Platform, open: O, attempt: T, listed: Vec<CodecInfo>, res: Vec<CodecInfo>)
    requires
        call_ensures(Decoder::candidates, (platform,), listed),
        call_ensures(Decoder::available_decoders::<D, O, T>, (platform, open, attempt), res),
    ensures
        exists|codecs: Seq<CodecInfo>, picks: Seq<int>|
            {
                &&& codecs.len() == listed@.len()
                &&& forall|i: int|
                    0 <= i < codecs.len() ==> crate::laws::candidates::same_codec(
                        #[trigger] codecs[i],
                        listed@[i],
                    )
                &&& #[trigger] is_list_of(res@, codecs, picks)
                &&& ascending(picks, codecs.len())
                &&& forall|i: int|
                    0 <= i < codecs.len() ==> (if picks.contains(i) {
                        worked(&open, &attempt, #[trigger] codecs[i])
                    } else {
                        failed(&open, &attempt, codecs[i])
                    })
            },
{
    let (codecs, verdicts) = choose|codecs: Seq<CodecInfo>, verdicts: Seq<bool>|
        {
            &&& ffmpeg_ram::codec_views(codecs) == candidates::candidates(platform)
            &&& #[trigger] probe::tried_out(&open, &attempt, codecs, verdicts)
            &&& ffmpeg_ram::codec_views(res@) == probe::retained(
                candidates::candidates(platform),
                verdicts,
            )
        };
    let picks = lemma_tried_out(&open, &attempt, res@, codecs, verdicts);
    let failing = |i: int| failed(&open, &attempt, codecs[i]);
    law_codec_views(codecs, listed@);
    lemma_distinct(platform, codecs);
    assert forall|i: int| 0 <= i < codecs.len() implies (if picks.contains(i) {
        worked(&open, &attempt, #[trigger] codecs[i])
    } else {
        failed(&open, &attempt, codecs[i])
    }) by {
        if picks.contains(i) {
            let k = picks.index_of(i);
            assert(picks[k] == i);
        } else {
            if !failing(i) {
                let k = choose|k: int|
                    0 <= k < picks.len() && #[trigger] picks[k] < i && codecs[picks[k]].name@
                        == codecs[i].name@ && codecs[picks[k]].hwdevice == codecs[i].hwdevice;
                assert(codecs[picks[k]].name@ != codecs[i].name@ || codecs[picks[k]].hwdevice
                    != codecs[i].hwdevice);
            }
        }
    }
    assert(is_list_of(res@, codecs, picks));
}

proof fn lemma_distinct(platform: Platform, codecs: Seq<CodecInfo>)
    requires
        ffmpeg_ram::codec_views(codecs) == candidates::candidates(platform),
    ensures
        forall|i: int, j: int|
            0 <= i < j < codecs.len() ==> (#[trigger] codecs[i]).name@ != (
            #[trigger] codecs[j]).name@ || codecs[i].hwdevice != codecs[j].hwdevice,
{
    laws::law_candidates(platform);
    let views = ffmpeg_ram::codec_views(codecs);
    assert forall|i: int, j: int| 0 <= i < j < codecs.len() implies (#[trigger] codecs[i]).name@ != (
    #[trigger] codecs[j]).name@ || codecs[i].hwdevice != codecs[j].hwdevice by {
        assert(views[i] == codecs[i]@);
        assert(views[j] == codecs[j]@);
        assert(!probe::same_backend(views[i], views[j]));
    }
}

/// The software decoders that are found: what the cache holds is handed out, in every
/// field as it is, and stays in the cache. Where the cache holds nothing, what is
/// handed out is put there; it is the decoder for H.264 if that worked, and the one for
/// H.265 if that worked, in this order.
pub proof fn law_available_software_decoders<
    D,
    O: Fn(DecodeContext) -> Option<D>,
    T: Fn(D, ProbeSample) -> ProbeTrial,
>(cache: &mut Option<Vec<CodecInfo>>, open: O, attempt: T, res: Vec<CodecInfo>)
    requires
        call_ensures(
            Decoder::available_software_decoders::<D, O, T>,
            (cache, open, attempt),
            res,
        ),
    ensures
        *old(cache) is Some ==> *final(cache) == *old(cache),
        *final(cache) matches Some(kept) && {
            &&& kept@.len() == res@.len()
            &&& forall|k: int|
                0 <= k < kept@.len() ==> crate::laws::candidates::same_codec(
                    #[trigger] kept@[k],
                    res@[k],
                )
        },
        *old(cache) is None ==> exists|codecs: Seq<CodecInfo>, picks: Seq<int>|
            {
                &&& codecs.len() == 2
                &&& crate::laws::candidates::is_software(codecs[0])
                &&& crate::laws::candidates::is_software(codecs[1])
                &&& codecs[0].format == DataFormat::H264
                &&& codecs[1].format == DataFormat::H265
                &&& #[trigger] is_list_of(res@, codecs, picks)
                &&& ascending(picks, 2)
                &&& forall|i: int|
                    0 <= i < 2 ==> (if picks.contains(i) {
                        worked(&open, &attempt, #[trigger] codecs[i])
                    } else {
                        failed(&open, &attempt, codecs[i])
                    })
            },
{
    let kept = (*final(cache))->0;
    law_codec_views(kept@, res@);
    if *old(cache) is None {
        let software = candidates::software_candidates();
        let (codecs, verdicts) = choose|codecs: Seq<CodecInfo>, verdicts: Seq<bool>|
            {
                &&& ffmpeg_ram::codec_views(codecs) == software
                &&& #[trigger] probe::tried_out(&open, &attempt, codecs, verdicts)
                &&& ffmpeg_ram::codec_views(res@) == probe::retained(software, verdicts)
            };
        let picks = lemma_tried_out(&open, &attempt, res@, codecs, verdicts);
        let failing = |i: int| failed(&open, &attempt, codecs[i]);
        lemma_software_candidates(codecs);
        reveal_strlit("h264");
        reveal_strlit("hevc");
        assert("h264"@[1] != "hevc"@[1]);
        assert forall|i: int| 0 <= i < 2 implies (if picks.contains(i) {
            worked(&open, &attempt, #[trigger] codecs[i])
        } else {
            failed(&open, &attempt, codecs[i])
        }) by {
            if picks.contains(i) {
                let k = picks.index_of(i);
                assert(picks[k] == i);
            } else {
                if !failing(i) {
                    let k = choose|k: int|
                        0 <= k < picks.len() && #[trigger] picks[k] < i && codecs[picks[k]].name@
                            == codecs[i].name@ && codecs[picks[k]].hwdevice == codecs[i].hwdevice;
                    assert(picks[k] == 0);
                }
            }
        }
        assert(is_list_of(res@, codecs, picks));
    }
}

/// On a machine without decoders on hardware, what is found is what is found in
/// software: every entry is on no device.
pub proof fn law_other_machines_have_software_only<
    D,
    O: Fn(DecodeContext) -> Option<D>,
    T: Fn(D, ProbeSample) -> ProbeTrial,
>(open: O, attempt: T, res: Vec<CodecInfo>, k: int)
    requires
        call_ensures(
            Decoder::available_decoders::<D, O, T>,
            (Platform::Other, open, attempt),
            res,
        ),
        0 <= k < res@.len(),
    ensures
        res@[k].hwdevice == AVHWDeviceType::AV_HWDEVICE_TYPE_NONE,
        res@[k].priority == 3,
{
    let platform = Platform::Other;
    let (codecs, verdicts) = choose|codecs: Seq<CodecInfo>, verdicts: Seq<bool>|
        {
            &&& ffmpeg_ram::codec_views(codecs) == candidates::candidates(platform)
            &&& #[trigger] probe::tried_out(&open, &attempt, codecs, verdicts)
            &&& ffmpeg_ram::codec_views(res@) == probe::retained(
                candidates::candidates(platform),
                verdicts,
            )
        };
    let picks = lemma_tried_out(&open, &attempt, res@, codecs, verdicts);
    let i = picks[k];
    assert(res@[k].hwdevice == codecs[i].hwdevice);
    assert(candidates::candidates(platform) =~= candidates::software_candidates());
    lemma_software_candidates(codecs);
}

} // verus!
