//! Trying decoders out: which of a list of candidates turn out to work here.
use crate::common::{DataFormat, TEST_TIMEOUT_MS};
use crate::ffmpeg_ram;
use crate::ffmpeg_ram::decode::{DecodeContext, Decoder};
use crate::ffmpeg_ram::{CodecInfo, CodecView};
use vstd::prelude::*;

verus! {

/// The two entries stand for the same decoder on the same kind of device.
pub open spec fn same_backend(a: CodecView, b: CodecView) -> bool {
    a.name == b.name && a.hwdevice == b.hwdevice
}

/// The list holds an entry for the backend of `codec`.
pub open spec fn has_backend(codecs: Seq<CodecView>, codec: CodecView) -> bool {
    exists|k: int| 0 <= k < codecs.len() && same_backend(#[trigger] codecs[k], codec)
}

/// The candidates that are kept when candidate `i`, if it is tried out at all,
/// gets the verdict `verdicts[i]`: each that passes, unless an earlier one with
/// the same backend was kept.
pub open spec fn retained(codecs: Seq<CodecView>, verdicts: Seq<bool>) -> Seq<CodecView>
    decreases codecs.len(),
{
    if codecs.len() == 0 {
        Seq::empty()
    } else {
        let before = retained(codecs.drop_last(), verdicts);
        if !has_backend(before, codecs.last()) && verdicts[codecs.len() - 1] {
            before.push(codecs.last())
        } else {
            before
        }
    }
}

/// Candidate `i` is tried out: its backend was not kept before.
pub open spec fn is_probed(codecs: Seq<CodecView>, verdicts: Seq<bool>, i: int) -> bool {
    !has_backend(retained(codecs.take(i), verdicts), codecs[i])
}

/// The verdicts on those of the first `n` candidates that are tried out are what
/// `probe` can say of them.
pub open spec fn given_by<F: FnMut(&CodecInfo) -> bool>(
    probe: F,
    codecs: Seq<CodecInfo>,
    verdicts: Seq<bool>,
    n: int,
) -> bool {
    forall|i: int|
        0 <= i < n && is_probed(ffmpeg_ram::codec_views(codecs), verdicts, i) ==> call_ensures(
            probe,
            (&codecs[i],),
            #[trigger] verdicts[i],
        )
}

impl Decoder {
    /// The list holds an entry for the backend of `codec`.
    fn knows_backend(codecs: &Vec<CodecInfo>, codec: &CodecInfo) -> (res: bool)
        ensures
            res == has_backend(ffmpeg_ram::codec_views(codecs@), codec@),
    {
        let ghost views = ffmpeg_ram::codec_views(codecs@);
        let mut k: usize = 0;
        while k < codecs.len()
            invariant
                k <= codecs@.len(),
                views == ffmpeg_ram::codec_views(codecs@),
                forall|j: int| 0 <= j < k ==> !same_backend(#[trigger] views[j], codec@),
            decreases codecs@.len() - k,
        {
            if codecs[k].name == codec.name && codecs[k].hwdevice == codec.hwdevice {
                assert(same_backend(views[k as int], codec@));
                return true;
            }
            assert(views[k as int] == codecs@[k as int]@);
            k = k + 1;
        }
        false
    }

    /// The candidates that `probe` finds to work, in their order. Of candidates
    /// with one name and one kind of device the first that works is kept, and
    /// those behind it are not handed to `probe`; backends that differ in either are
    /// kept side by side, so that a stream can fall back from one to another.
    pub fn probe_decoders_with<F: FnMut(&CodecInfo) -> bool>(
        codecs: Vec<CodecInfo>,
        mut probe: F,
    ) -> (res: Vec<CodecInfo>)
        requires
            forall|verdicts: Seq<bool>, i: int|
                0 <= i < codecs@.len() && verdicts.len() == i && given_by(
                    probe,
                    codecs@,
                    verdicts,
                    i,
                ) && #[trigger] is_probed(ffmpeg_ram::codec_views(codecs@), verdicts, i)
                    ==> call_requires(probe, (&codecs@[i],)),
        ensures
            exists|verdicts: Seq<bool>|
                {
                    &&& verdicts.len() == codecs@.len()
                    &&& #[trigger] given_by(probe, codecs@, verdicts, codecs@.len() as int)
                    &&& ffmpeg_ram::codec_views(res@) == retained(
                        ffmpeg_ram::codec_views(codecs@),
                        verdicts,
                    )
                },
    {
        let ghost all = codecs@;
        let ghost views = ffmpeg_ram::codec_views(codecs@);
        let ghost prober = probe;
        let ghost mut verdicts: Seq<bool> = Seq::empty();
        let mut res: Vec<CodecInfo> = Vec::with_capacity(codecs.len());
        proof {
            assert(ffmpeg_ram::codec_views(res@) =~= Seq::empty());
            assert(views.take(0) =~= Seq::empty());
        }
        for codec in it: codecs
            invariant
                it.seq() == all,
                probe == prober,
                views == ffmpeg_ram::codec_views(all),
                forall|verdicts: Seq<bool>, i: int|
                    0 <= i < all.len() && verdicts.len() == i && given_by(
                        prober,
                        all,
                        verdicts,
                        i,
                    ) && #[trigger] is_probed(views, verdicts, i) ==> call_requires(
                        prober,
                        (&all[i],),
                    ),
                verdicts.len() == it.index(),
                given_by(prober, all, verdicts, it.index()),
                ffmpeg_ram::codec_views(res@) == retained(
                    views.take(it.index()),
                    verdicts,
                ),
        {
            let ghost n = it.index();
            let ghost kept = ffmpeg_ram::codec_views(res@);
            proof {
                assert(codec == all[n]);
                assert(views.take(n + 1).drop_last() =~= views.take(n));
                assert(views.take(n + 1).last() == codec@);
                assert forall|v: bool, i: int| 0 <= i <= n implies #[trigger] retained(
                    views.take(i),
                    verdicts.push(v),
                ) == retained(views.take(i), verdicts) by {
                    lemma_retained_prefix(views.take(i), verdicts, verdicts.push(v));
                }
            }
            if Self::knows_backend(&res, &codec) {
                proof {
                    verdicts = verdicts.push(false);
                }
            } else {
                assert(is_probed(views, verdicts, n));
                let passed: bool = probe(&codec);
                proof {
                    verdicts = verdicts.push(passed);
                }
                if passed {
                    res.push(codec);
                    assert(ffmpeg_ram::codec_views(res@) =~= kept.push(codec@));
                }
            }
            assert(retained(views.take(n), verdicts) == kept);
            assert(verdicts[views.take(n + 1).len() - 1] == verdicts[n]);
            assert(ffmpeg_ram::codec_views(res@) == retained(views.take(n + 1), verdicts));
        }
        assert(views.take(all.len() as int) =~= views);
        res
    }
}

/// The packets that decoders are tried out with: a picture of 1280 by 720 pixels
/// in each of the formats.
#[derive(Clone, Copy, Debug, PartialEq, Eq, Structural)]
pub enum ProbeSample {
    H264,
    H265,
    AV1,
}

/// What came of decoding a sample: how many frames there were, or the error, and
/// how long it took.
#[derive(Clone, Copy, Debug)]
pub struct ProbeTrial {
    pub frames: Result<usize, i32>,
    pub elapsed_ms: u128,
}

impl ProbeSample {
    /// The sample in a format, if there is one.
    pub open spec fn spec_for_format(format: DataFormat) -> Option<ProbeSample> {
        match format {
            DataFormat::H264 => Some(ProbeSample::H264),
            DataFormat::H265 => Some(ProbeSample::H265),
            DataFormat::AV1 => Some(ProbeSample::AV1),
            _ => None,
        }
    }

    /// The sample in a format, if there is one.
    pub fn for_format(format: DataFormat) -> (res: Option<ProbeSample>)
        ensures
            res == Self::spec_for_format(format),
    {
        match format {
            DataFormat::H264 => Some(ProbeSample::H264),
            DataFormat::H265 => Some(ProbeSample::H265),
            DataFormat::AV1 => Some(ProbeSample::AV1),
            _ => None,
        }
    }
}

impl ProbeTrial {
    /// The sample was decoded without an error, gave a frame, and was done in time.
    pub open spec fn spec_passes(self) -> bool {
        &&& self.frames matches Ok(count) && count > 0
        &&& self.elapsed_ms < TEST_TIMEOUT_MS
    }

    /// The sample was decoded without an error, gave a frame, and was done in time.
    pub fn passes(&self) -> (res: bool)
        ensures
            res == self.spec_passes(),
    {
        match self.frames {
            Ok(count) => count > 0 && self.elapsed_ms < TEST_TIMEOUT_MS,
            Err(_) => false,
        }
    }
}

/// How a decoder is opened to be tried out.
pub open spec fn probe_context(codec: CodecInfo) -> DecodeContext {
    DecodeContext { name: codec.name, device_type: codec.hwdevice, thread_count: 4 }
}

/// `passed` is what trying out `codec` can come to: it passes if it opens, there
/// is a sample in its format, and decoding the sample passes.
pub open spec fn probe_outcome<
    D,
    O: Fn(DecodeContext) -> Option<D>,
    T: Fn(D, ProbeSample) -> ProbeTrial,
>(open: &O, attempt: &T, codec: CodecInfo, passed: bool) -> bool {
    exists|opened: Option<D>|
        {
            &&& #[trigger] call_ensures(*open, (probe_context(codec),), opened)
            &&& match (opened, ProbeSample::spec_for_format(codec.format)) {
                (Some(decoder), Some(sample)) => exists|trial: ProbeTrial|
                    {
                        &&& #[trigger] call_ensures(*attempt, (decoder, sample), trial)
                        &&& passed == trial.spec_passes()
                    },
                _ => !passed,
            }
        }
}

/// `codec` may be tried out: `open` takes the context that it is opened with, and
/// `attempt` takes a decoder that this gave, with the sample in its format.
pub open spec fn can_try<
    D,
    O: Fn(DecodeContext) -> Option<D>,
    T: Fn(D, ProbeSample) -> ProbeTrial,
>(open: &O, attempt: &T, codec: CodecInfo) -> bool {
    &&& call_requires(*open, (probe_context(codec),))
    &&& forall|decoder: D, sample: ProbeSample|
        call_ensures(*open, (probe_context(codec),), Some(decoder))
            && ProbeSample::spec_for_format(codec.format) == Some(sample)
            ==> #[trigger] call_requires(*attempt, (decoder, sample))
}

/// The verdict on each of the first `n` candidates that is tried out is what trying
/// it out came to.
pub open spec fn tried_out_first<
    D,
    O: Fn(DecodeContext) -> Option<D>,
    T: Fn(D, ProbeSample) -> ProbeTrial,
>(open: &O, attempt: &T, codecs: Seq<CodecInfo>, verdicts: Seq<bool>, n: int) -> bool {
    forall|i: int|
        0 <= i < n && is_probed(
            ffmpeg_ram::codec_views(codecs),
            verdicts,
            i,
        ) ==> probe_outcome(open, attempt, codecs[i], #[trigger] verdicts[i])
}

/// There is a verdict on each candidate, and that on each candidate that is tried
/// out is what trying it out came to.
pub open spec fn tried_out<
    D,
    O: Fn(DecodeContext) -> Option<D>,
    T: Fn(D, ProbeSample) -> ProbeTrial,
>(open: &O, attempt: &T, codecs: Seq<CodecInfo>, verdicts: Seq<bool>) -> bool {
    &&& verdicts.len() == codecs.len()
    &&& tried_out_first(open, attempt, codecs, verdicts, codecs.len() as int)
}

impl Decoder {
    /// Tries out one decoder. `open` opens it, and `attempt` has it decode a
    /// sample, which is left out if there is no decoder or no sample.
    fn probe_codec<
        D,
        O: Fn(DecodeContext) -> Option<D>,
        T: Fn(D, ProbeSample) -> ProbeTrial,
    >(codec: &CodecInfo, open: &O, attempt: &T) -> (res: bool)
        requires
            can_try(open, attempt, *codec),
        ensures
            probe_outcome(open, attempt, *codec, res),
    {
        let ctx = DecodeContext {
            name: codec.name.clone(),
            device_type: codec.hwdevice,
            thread_count: 4,
        };
        match open(ctx) {
            Some(decoder) => {
                match ProbeSample::for_format(codec.format) {
                    Some(sample) => {
                        let trial: ProbeTrial = attempt(decoder, sample);
                        trial.passes()
                    },
                    None => false,
                }
            },
            None => false,
        }
    }

    /// The candidates that work here, found by opening each whose backend was not
    /// kept before and having it decode the sample in its format. Nothing else is
    /// opened or decoded.
    pub fn probe_decoders<
        D,
        O: Fn(DecodeContext) -> Option<D>,
        T: Fn(D, ProbeSample) -> ProbeTrial,
    >(codecs: Vec<CodecInfo>, open: O, attempt: T) -> (res: Vec<CodecInfo>)
        requires
            forall|verdicts: Seq<bool>, i: int|
                0 <= i < codecs@.len() && verdicts.len() == i && tried_out_first(
                    &open,
                    &attempt,
                    codecs@,
                    verdicts,
                    i,
                ) && #[trigger] is_probed(ffmpeg_ram::codec_views(codecs@), verdicts, i)
                    ==> can_try(&open, &attempt, codecs@[i]),
        ensures
            exists|verdicts: Seq<bool>|
                {
                    &&& #[trigger] tried_out(&open, &attempt, codecs@, verdicts)
                    &&& ffmpeg_ram::codec_views(res@) == retained(
                        ffmpeg_ram::codec_views(codecs@),
                        verdicts,
                    )
                },
    {
        let probe = |codec: &CodecInfo| -> (passed: bool)
            requires
                can_try(&open, &attempt, *codec),
            ensures
                probe_outcome(&open, &attempt, *codec, passed),
        {
            Self::probe_codec(codec, &open, &attempt)
        };
        let ghost all = codecs@;
        proof {
            let views = ffmpeg_ram::codec_views(all);
            assert forall|verdicts: Seq<bool>, i: int|
                0 <= i < all.len() && verdicts.len() == i && given_by(probe, all, verdicts, i)
                    && #[trigger] is_probed(views, verdicts, i) implies call_requires(
                probe,
                (&all[i],),
            ) by {
                assert(tried_out_first(&open, &attempt, all, verdicts, i));
            }
        }
        let res: Vec<CodecInfo> = Self::probe_decoders_with(codecs, probe);
        proof {
            let views = ffmpeg_ram::codec_views(all);
            let verdicts = choose|verdicts: Seq<bool>|
                {
                    &&& verdicts.len() == all.len()
                    &&& #[trigger] given_by(probe, all, verdicts, all.len() as int)
                    &&& ffmpeg_ram::codec_views(res@) == retained(views, verdicts)
                };
            assert(tried_out(&open, &attempt, all, verdicts));
        }
        res
    }
}

/// What is kept of a list depends on the verdicts on that list only.
pub proof fn lemma_retained_prefix(codecs: Seq<CodecView>, a: Seq<bool>, b: Seq<bool>)
    requires
        codecs.len() <= a.len(),
        codecs.len() <= b.len(),
        forall|i: int| 0 <= i < codecs.len() ==> a[i] == b[i],
    ensures
        retained(codecs, a) == retained(codecs, b),
    decreases codecs.len(),
{
    if codecs.len() > 0 {
        lemma_retained_prefix(codecs.drop_last(), a, b);
    }
}

} // verus!
