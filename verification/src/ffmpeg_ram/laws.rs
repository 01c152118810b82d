//! What holds of every list of decoders that were tried out.
use crate::common::{Platform, TEST_TIMEOUT_MS};
use crate::ffmpeg::AVHWDeviceType;
use crate::ffmpeg_ram;
use crate::ffmpeg_ram::decode::DecodeContext;
use crate::ffmpeg_ram::probe::{ProbeSample, ProbeTrial};
use crate::ffmpeg_ram::{candidates, probe, CodecInfo, CodecView};
use vstd::prelude::*;

verus! {

/// No two entries of the list share a backend.
pub open spec fn distinct_backends(codecs: Seq<CodecView>) -> bool {
    forall|i: int, j: int|
        0 <= i < j < codecs.len() ==> !probe::same_backend(
            #[trigger] codecs[i],
            #[trigger] codecs[j],
        )
}

/// No entry of one list shares a backend with an entry of the other.
pub open spec fn disjoint_backends(a: Seq<CodecView>, b: Seq<CodecView>) -> bool {
    forall|i: int, j: int|
        0 <= i < a.len() && 0 <= j < b.len() ==> !probe::same_backend(
            #[trigger] a[i],
            #[trigger] b[j],
        )
}

/// `picks` are positions in the list `codecs`, in ascending order.
pub open spec fn ascending_positions(picks: Seq<int>, codecs: Seq<CodecView>) -> bool {
    &&& forall|k: int| 0 <= k < picks.len() ==> 0 <= #[trigger] picks[k] < codecs.len()
    &&& forall|k: int, l: int|
        0 <= k < l < picks.len() ==> #[trigger] picks[k] < #[trigger] picks[l]
}

/// `picks` are, in ascending order, the positions of the candidates that are kept;
/// each of them was tried out and passed.
pub open spec fn kept_positions(
    picks: Seq<int>,
    codecs: Seq<CodecView>,
    verdicts: Seq<bool>,
) -> bool {
    let kept = probe::retained(codecs, verdicts);
    &&& ascending_positions(picks, codecs)
    &&& picks.len() == kept.len()
    &&& forall|k: int|
        0 <= k < picks.len() ==> {
            &&& probe::is_probed(codecs, verdicts, #[trigger] picks[k])
            &&& verdicts[picks[k]]
            &&& codecs[picks[k]] == kept[k]
        }
}

/// No backend is kept twice.
pub proof fn law_kept_backends_are_distinct(codecs: Seq<CodecView>, verdicts: Seq<bool>)
    requires
        verdicts.len() == codecs.len(),
    ensures
        distinct_backends(probe::retained(codecs, verdicts)),
    decreases codecs.len(),
{
    if codecs.len() > 0 {
        law_kept_backends_are_distinct(codecs.drop_last(), verdicts.drop_last());
        probe::lemma_retained_prefix(
            codecs.drop_last(),
            verdicts.drop_last(),
            verdicts,
        );
    }
}

/// What is kept are candidates that were tried out and passed, in the order of the
/// candidates.
pub proof fn law_kept_passed_in_order(codecs: Seq<CodecView>, verdicts: Seq<bool>)
    requires
        verdicts.len() == codecs.len(),
    ensures
        exists|picks: Seq<int>| kept_positions(picks, codecs, verdicts),
    decreases codecs.len(),
{
    let kept = probe::retained(codecs, verdicts);
    if codecs.len() == 0 {
        assert(kept_positions(Seq::empty(), codecs, verdicts));
    } else {
        let shorter = codecs.drop_last();
        let before = probe::retained(shorter, verdicts.drop_last());
        law_kept_passed_in_order(shorter, verdicts.drop_last());
        probe::lemma_retained_prefix(shorter, verdicts.drop_last(), verdicts);
        let picks = choose|picks: Seq<int>|
            kept_positions(picks, shorter, verdicts.drop_last());
        assert forall|k: int| 0 <= k < picks.len() implies probe::is_probed(
            codecs,
            verdicts,
            #[trigger] picks[k],
        ) by {
            let i = picks[k];
            assert(codecs.take(i) =~= shorter.take(i));
            probe::lemma_retained_prefix(shorter.take(i), verdicts.drop_last(), verdicts);
        }
        if kept == before {
            assert(kept_positions(picks, codecs, verdicts));
        } else {
            let more = picks.push(codecs.len() - 1);
            assert(kept == before.push(codecs.last()));
            assert(codecs.take(codecs.len() - 1) =~= shorter);
            assert(kept_positions(more, codecs, verdicts));
        }
    }
}

/// Every decoder that is kept, in software as on hardware, has been opened and has
/// decoded the sample in its format, without an error, with a frame to show and in
/// time.
pub proof fn law_kept_decoders_decoded_the_sample<
    D,
    O: Fn(DecodeContext) -> Option<D>,
    T: Fn(D, ProbeSample) -> ProbeTrial,
>(open: &O, attempt: &T, codecs: Seq<CodecInfo>, verdicts: Seq<bool>, k: int)
    requires
        probe::tried_out(open, attempt, codecs, verdicts),
        0 <= k < probe::retained(ffmpeg_ram::codec_views(codecs), verdicts).len(),
    ensures
        exists|i: int, decoder: D, sample: ProbeSample, trial: ProbeTrial|
            {
                &&& 0 <= i < codecs.len()
                &&& (#[trigger] codecs[i])@ == probe::retained(
                    ffmpeg_ram::codec_views(codecs),
                    verdicts,
                )[k]
                &&& call_ensures(*open, (probe::probe_context(codecs[i]),), Some(decoder))
                &&& ProbeSample::spec_for_format(codecs[i].format) == Some(sample)
                &&& #[trigger] call_ensures(*attempt, (decoder, sample), trial)
                &&& trial.frames matches Ok(count) && count >= 1
                &&& trial.elapsed_ms < TEST_TIMEOUT_MS
            },
{
    let views = ffmpeg_ram::codec_views(codecs);
    law_kept_passed_in_order(views, verdicts);
    let picks = choose|picks: Seq<int>| kept_positions(picks, views, verdicts);
    let i = picks[k];
    assert(views[i] == codecs[i]@);
    assert(probe::probe_outcome(open, attempt, codecs[i], verdicts[i]));
}

/// A backend is kept exactly if some candidate for it passed. So a candidate that
/// fails keeps no other backend out, one that works is always found in some entry,
/// and a decoder that is not available is not in the list.
pub proof fn law_backend_kept_iff_passed(
    codecs: Seq<CodecView>,
    verdicts: Seq<bool>,
    codec: CodecView,
)
    requires
        verdicts.len() == codecs.len(),
    ensures
        probe::has_backend(
            probe::retained(codecs, verdicts),
            codec,
        ) <==> exists|i: int|
            0 <= i < codecs.len() && verdicts[i] && probe::same_backend(
                #[trigger] codecs[i],
                codec,
            ),
    decreases codecs.len(),
{
    if codecs.len() > 0 {
        let kept = probe::retained(codecs, verdicts);
        let shorter = codecs.drop_last();
        let before = probe::retained(shorter, verdicts.drop_last());
        law_backend_kept_iff_passed(shorter, verdicts.drop_last(), codec);
        probe::lemma_retained_prefix(shorter, verdicts.drop_last(), verdicts);
        let last = codecs.last();
        if probe::has_backend(before, codec) {
            let k = choose|k: int|
                0 <= k < before.len() && probe::same_backend(
                    #[trigger] before[k],
                    codec,
                );
            assert(kept[k] == before[k]);
            let i = choose|i: int|
                0 <= i < shorter.len() && verdicts.drop_last()[i]
                    && probe::same_backend(#[trigger] shorter[i], codec);
            assert(codecs[i] == shorter[i]);
        } else {
            assert forall|i: int| 0 <= i < shorter.len() && verdicts[i] implies
                !probe::same_backend(#[trigger] codecs[i], codec) by {
                assert(codecs[i] == shorter[i]);
                assert(verdicts.drop_last()[i]);
            }
            if probe::same_backend(last, codec) {
                assert(probe::has_backend(before, last)
                    == probe::has_backend(before, codec)) by {
                    if probe::has_backend(before, last) {
                        let k = choose|k: int|
                            0 <= k < before.len() && probe::same_backend(
                                #[trigger] before[k],
                                last,
                            );
                        assert(probe::same_backend(before[k], codec));
                    }
                }
                if verdicts[codecs.len() - 1] {
                    assert(kept == before.push(last));
                    assert(kept[before.len() as int] == last);
                    assert(codecs[codecs.len() - 1] == last);
                }
            }
        }
    }
}

/// Lists that share no backend are tried out independently of each other: what is
/// kept of the two in a row is what is kept of the one, then of the other.
pub proof fn law_disjoint_lists_are_independent(
    a: Seq<CodecView>,
    b: Seq<CodecView>,
    verdicts: Seq<bool>,
)
    requires
        verdicts.len() == a.len() + b.len(),
        disjoint_backends(a, b),
    ensures
        probe::retained(a + b, verdicts) == probe::retained(
            a,
            verdicts.take(a.len() as int),
        ) + probe::retained(b, verdicts.skip(a.len() as int)),
    decreases b.len(),
{
    let first = verdicts.take(a.len() as int);
    let second = verdicts.skip(a.len() as int);
    let kept_a = probe::retained(a, first);
    if b.len() == 0 {
        assert(a + b =~= a);
        assert(first =~= verdicts);
        assert(kept_a + Seq::<CodecView>::empty() =~= kept_a);
    } else {
        let shorter = b.drop_last();
        let fewer = verdicts.drop_last();
        law_disjoint_lists_are_independent(a, shorter, fewer);
        assert(fewer.take(a.len() as int) =~= first);
        assert(fewer.skip(a.len() as int) =~= second.drop_last());
        assert((a + b).drop_last() =~= a + shorter);
        assert((a + b).last() == b.last());
        probe::lemma_retained_prefix(a + shorter, fewer, verdicts);
        probe::lemma_retained_prefix(shorter, second.drop_last(), second);
        let kept_b = probe::retained(shorter, second);
        let both = kept_a + kept_b;
        assert(probe::retained(a + shorter, verdicts) == both);
        law_backend_kept_iff_passed(a, first, b.last());
        assert(!probe::has_backend(kept_a, b.last()));
        assert(probe::has_backend(both, b.last())
            == probe::has_backend(kept_b, b.last())) by {
            if probe::has_backend(both, b.last()) {
                let k = choose|k: int|
                    0 <= k < both.len() && probe::same_backend(
                        #[trigger] both[k],
                        b.last(),
                    );
                if k < kept_a.len() {
                    assert(kept_a[k] == both[k]);
                } else {
                    assert(kept_b[k - kept_a.len()] == both[k]);
                }
            }
            if probe::has_backend(kept_b, b.last()) {
                let k = choose|k: int|
                    0 <= k < kept_b.len() && probe::same_backend(
                        #[trigger] kept_b[k],
                        b.last(),
                    );
                assert(both[kept_a.len() + k] == kept_b[k]);
            }
        }
        assert(verdicts[(a + b).len() - 1] == second[b.len() - 1]);
        assert(kept_a + kept_b.push(b.last()) =~= both.push(b.last()));
    }
}

/// Whatever else is in the list, failing one backend takes away that backend and
/// nothing more.
pub proof fn law_failure_is_local(
    codecs: Seq<CodecView>,
    verdicts: Seq<bool>,
    failing: Seq<bool>,
    codec: CodecView,
)
    requires
        verdicts.len() == codecs.len(),
        failing.len() == codecs.len(),
        forall|i: int|
            0 <= i < codecs.len() ==> #[trigger] failing[i] == (verdicts[i]
                && !probe::same_backend(codecs[i], codec)),
    ensures
        probe::retained(codecs, failing) == probe::retained(
            codecs,
            verdicts,
        ).filter(|other: CodecView| !probe::same_backend(other, codec)),
    decreases codecs.len(),
{
    let others = |other: CodecView| !probe::same_backend(other, codec);
    reveal(Seq::filter);
    if codecs.len() > 0 {
        let shorter = codecs.drop_last();
        let last = codecs.last();
        law_failure_is_local(shorter, verdicts.drop_last(), failing.drop_last(), codec);
        probe::lemma_retained_prefix(shorter, verdicts.drop_last(), verdicts);
        probe::lemma_retained_prefix(shorter, failing.drop_last(), failing);
        let before = probe::retained(shorter, verdicts);
        let rest = probe::retained(shorter, failing);
        assert(rest == before.filter(others));
        assert(before.push(last).drop_last() =~= before);
        if !probe::same_backend(last, codec) {
            law_backend_kept_iff_passed(shorter, verdicts.drop_last(), last);
            law_backend_kept_iff_passed(shorter, failing.drop_last(), last);
            assert(probe::has_backend(before, last)
                == probe::has_backend(rest, last)) by {
                if exists|i: int|
                    0 <= i < shorter.len() && verdicts.drop_last()[i]
                        && probe::same_backend(#[trigger] shorter[i], last) {
                    let i = choose|i: int|
                        0 <= i < shorter.len() && verdicts.drop_last()[i]
                            && probe::same_backend(#[trigger] shorter[i], last);
                    assert(failing[i]);
                    assert(failing.drop_last()[i]);
                }
                if exists|i: int|
                    0 <= i < shorter.len() && failing.drop_last()[i]
                        && probe::same_backend(#[trigger] shorter[i], last) {
                    let i = choose|i: int|
                        0 <= i < shorter.len() && failing.drop_last()[i]
                            && probe::same_backend(#[trigger] shorter[i], last);
                    assert(failing[i]);
                    assert(verdicts.drop_last()[i]);
                }
            }
            assert(failing[codecs.len() - 1] == verdicts[codecs.len() - 1]);
        } else {
            assert(!failing[codecs.len() - 1]);
        }
    }
}

/// In a list whose backends are distinct every candidate is tried out.
pub proof fn law_distinct_candidates_are_all_tried(
    codecs: Seq<CodecView>,
    verdicts: Seq<bool>,
    i: int,
)
    requires
        verdicts.len() == codecs.len(),
        distinct_backends(codecs),
        0 <= i < codecs.len(),
    ensures
        probe::is_probed(codecs, verdicts, i),
{
    probe::lemma_retained_prefix(codecs.take(i), verdicts.take(i), verdicts);
    law_backend_kept_iff_passed(codecs.take(i), verdicts.take(i), codecs[i]);
    assert forall|j: int| 0 <= j < i implies !probe::same_backend(
        #[trigger] codecs.take(i)[j],
        codecs[i],
    ) by {
        assert(codecs.take(i)[j] == codecs[j]);
    }
}

/// Trying out again what was kept, with each passing again, keeps all of it.
pub proof fn law_kept_list_is_stable(
    codecs: Seq<CodecView>,
    verdicts: Seq<bool>,
    again: Seq<bool>,
)
    requires
        verdicts.len() == codecs.len(),
        again.len() == probe::retained(codecs, verdicts).len(),
        forall|k: int| 0 <= k < again.len() ==> #[trigger] again[k],
    ensures
        probe::retained(
            probe::retained(codecs, verdicts),
            again,
        ) == probe::retained(codecs, verdicts),
{
    law_kept_backends_are_distinct(codecs, verdicts);
    lemma_all_kept(probe::retained(codecs, verdicts), again);
}

proof fn lemma_all_kept(codecs: Seq<CodecView>, verdicts: Seq<bool>)
    requires
        verdicts.len() == codecs.len(),
        distinct_backends(codecs),
        forall|i: int| 0 <= i < verdicts.len() ==> #[trigger] verdicts[i],
    ensures
        probe::retained(codecs, verdicts) == codecs,
    decreases codecs.len(),
{
    if codecs.len() > 0 {
        let shorter = codecs.drop_last();
        lemma_all_kept(shorter, verdicts.drop_last());
        probe::lemma_retained_prefix(shorter, verdicts.drop_last(), verdicts);
        assert forall|k: int| 0 <= k < shorter.len() implies
            !probe::same_backend(#[trigger] shorter[k], codecs.last()) by {
            assert(shorter[k] == codecs[k]);
        }
        assert(shorter.push(codecs.last()) =~= codecs);
        assert(verdicts[codecs.len() - 1]);
    }
}

proof fn lemma_candidate_names()
    ensures
        "h264"@ != "hevc"@,
        "h264"@ != "av1"@,
        "hevc"@ != "av1"@,
        "h264_cuvid"@ != "hevc_cuvid"@,
        "h264_cuvid"@ != "av1_cuvid"@,
        "hevc_cuvid"@ != "av1_cuvid"@,
{
    reveal_strlit("h264");
    reveal_strlit("hevc");
    reveal_strlit("av1");
    reveal_strlit("h264_cuvid");
    reveal_strlit("hevc_cuvid");
    reveal_strlit("av1_cuvid");
    assert("h264"@[1] != "hevc"@[1]);
    assert("h264_cuvid"@[1] != "hevc_cuvid"@[1]);
    assert("h264"@.len() != "av1"@.len());
    assert("hevc"@.len() != "av1"@.len());
    assert("h264_cuvid"@.len() != "av1_cuvid"@.len());
    assert("hevc_cuvid"@.len() != "av1_cuvid"@.len());
}

/// On every machine the candidates have distinct backends, those on hardware come
/// first and name a device, and those behind them name none.
pub proof fn law_candidates(platform: Platform)
    ensures
        distinct_backends(candidates::candidates(platform)),
        forall|i: int|
            0 <= i < candidates::hardware_candidates(platform).len() ==> (
            #[trigger] candidates::hardware_candidates(platform)[i]).hwdevice
                != AVHWDeviceType::AV_HWDEVICE_TYPE_NONE,
        forall|i: int|
            0 <= i < candidates::software_candidates().len() ==> (
            #[trigger] candidates::software_candidates()[i]).hwdevice
                == AVHWDeviceType::AV_HWDEVICE_TYPE_NONE,
{
    lemma_candidate_names();
}

/// There is a sample to try out every candidate with.
pub proof fn law_candidates_have_samples(platform: Platform, i: int)
    requires
        0 <= i < candidates::candidates(platform).len(),
    ensures
        probe::ProbeSample::spec_for_format(
            candidates::candidates(platform)[i].format,
        ) is Some,
{
}

/// What is available is what works on hardware, then what works in software; the
/// latter is, for the same verdicts, the list of available software decoders,
/// whatever the machine is and whatever became of the hardware.
pub proof fn law_software_is_independent_of_hardware(platform: Platform, verdicts: Seq<bool>)
    requires
        verdicts.len() == candidates::candidates(platform).len(),
    ensures
        probe::retained(
            candidates::candidates(platform),
            verdicts,
        ) == probe::retained(
            candidates::hardware_candidates(platform),
            verdicts.take(
                candidates::hardware_candidates(platform).len() as int,
            ),
        ) + probe::retained(
            candidates::software_candidates(),
            verdicts.skip(
                candidates::hardware_candidates(platform).len() as int,
            ),
        ),
{
    law_candidates(platform);
    law_disjoint_lists_are_independent(
        candidates::hardware_candidates(platform),
        candidates::software_candidates(),
        verdicts,
    );
}

} // verus!
