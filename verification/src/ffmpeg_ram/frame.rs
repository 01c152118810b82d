//! Pictures as a decoder hands them over, and the frames made of them.
use crate::ffmpeg::AVPixelFormat;
use crate::ffmpeg_ram::AV_NUM_DATA_POINTERS;
use crate::text;
use crate::text::{push_decimal, push_digits};
use vstd::prelude::*;

verus! {

/// A decoded picture: one byte vector and one line size for each plane.
pub struct DecodeFrame {
    pub pixfmt: AVPixelFormat,
    pub width: i32,
    pub height: i32,
    pub data: Vec<Vec<u8>>,
    pub linesize: Vec<i32>,
    pub key: bool,
}

/// A [`DecodeFrame`] with its vectors as sequences.
#[verifier::ext_equal]
pub struct FrameView {
    pub pixfmt: AVPixelFormat,
    pub width: i32,
    pub height: i32,
    pub data: Seq<Seq<u8>>,
    pub linesize: Seq<i32>,
    pub key: bool,
}

/// The contents of each plane.
pub open spec fn plane_views(planes: Seq<Vec<u8>>) -> Seq<Seq<u8>> {
    planes.map_values(|plane: Vec<u8>| plane@)
}

impl View for DecodeFrame {
    type V = FrameView;

    open spec fn view(&self) -> FrameView {
        FrameView {
            pixfmt: self.pixfmt,
            width: self.width,
            height: self.height,
            data: plane_views(self.data@),
            linesize: self.linesize@,
            key: self.key,
        }
    }
}

/// The frames of a list, each by its view.
pub open spec fn frame_views(frames: Seq<DecodeFrame>) -> Seq<FrameView> {
    frames.map_values(|frame: DecodeFrame| frame@)
}

impl FrameView {
    /// The lengths of the planes.
    pub open spec fn data_lens(self) -> Seq<int> {
        self.data.map_values(|plane: Seq<u8>| plane.len() as int)
    }

    /// The line sizes, as mathematical integers.
    pub open spec fn line_sizes(self) -> Seq<int> {
        self.linesize.map_values(|size: i32| size as int)
    }

    /// One line that describes the frame: the number of the pixel format, the
    /// measures, whether it is a key frame, the length of each plane and each
    /// line size.
    pub open spec fn text(self) -> Seq<char> {
        "fixfmt:"@ + text::decimal(self.pixfmt.spec_code() as int) + ", width:"@
            + text::decimal(self.width as int) + ", height:"@ + text::decimal(
            self.height as int,
        ) + ",key:"@ + text::truth(self.key) + ", "@ + ("data:"@ + text::spaced(
            self.data_lens(),
        ) + ", linesize:"@ + text::spaced(self.line_sizes()))
    }
}

impl DecodeFrame {
    /// The lengths of the planes and the line sizes, as text.
    fn layout_text(&self) -> (res: String)
        ensures
            res@ == "data:"@ + text::spaced(self@.data_lens()) + ", linesize:"@
                + text::spaced(self@.line_sizes()),
    {
        let mut s: String = "data:".to_owned();
        let ghost lens = self@.data_lens();
        let ghost sizes = self@.line_sizes();
        proof {
            reveal_strlit(" ");
            assert(lens.take(0) =~= Seq::<int>::empty());
            assert(sizes.take(0) =~= Seq::<int>::empty());
        }
        let mut i: usize = 0;
        while i < self.data.len()
            invariant
                i <= self.data@.len(),
                lens == self@.data_lens(),
                " "@ == seq![' '],
                s@ == "data:"@ + text::spaced(lens.take(i as int)),
            decreases self.data@.len() - i,
        {
            push_digits(&mut s, self.data[i].len() as u64);
            s.append(" ");
            proof {
                assert(lens.take(i + 1).drop_last() =~= lens.take(i as int));
                assert(lens.take(i + 1).last() == self.data@[i as int]@.len());
                assert(s@ =~= "data:"@ + text::spaced(lens.take(i + 1)));
            }
            i = i + 1;
        }
        assert(lens.take(i as int) =~= lens);
        s.append(", linesize:");
        let ghost head = s@;
        let mut j: usize = 0;
        while j < self.linesize.len()
            invariant
                j <= self.linesize@.len(),
                sizes == self@.line_sizes(),
                " "@ == seq![' '],
                s@ == head + text::spaced(sizes.take(j as int)),
            decreases self.linesize@.len() - j,
        {
            push_decimal(&mut s, self.linesize[j]);
            s.append(" ");
            proof {
                assert(sizes.take(j + 1).drop_last() =~= sizes.take(j as int));
                assert(sizes.take(j + 1).last() == self.linesize@[j as int]);
                assert(s@ =~= head + text::spaced(sizes.take(j + 1)));
            }
            j = j + 1;
        }
        assert(sizes.take(j as int) =~= sizes);
        s
    }

    /// One line that describes the frame, for log output.
    pub fn to_string(&self) -> (res: String)
        ensures
            res@ == self@.text(),
    {
        let layout: String = self.layout_text();
        let mut s: String = "fixfmt:".to_owned();
        push_decimal(&mut s, self.pixfmt.code());
        s.append(", width:");
        push_decimal(&mut s, self.width);
        s.append(", height:");
        push_decimal(&mut s, self.height);
        s.append(",key:");
        if self.key {
            s.append("true");
        } else {
            s.append("false");
        }
        s.append(", ");
        s.append(layout.as_str());
        s
    }
}

/// A picture as FFmpeg hands it over: the numbers it comes with, and the bytes
/// that lie where each data pointer points.
pub struct RawFrame {
    pub width: i32,
    pub height: i32,
    pub pixfmt: i32,
    pub linesizes: Vec<i32>,
    pub datas: Vec<Vec<u8>>,
    pub key: i32,
}

/// Division by two, rounded towards zero.
pub open spec fn half(n: int) -> int {
    if n < 0 {
        -((-n) / 2)
    } else {
        n / 2
    }
}

/// The number of bytes in plane `k` of a picture whose lines in that plane take
/// `linesize` bytes: the first plane is as high as the picture, the others half
/// as high.
pub open spec fn plane_len(k: int, linesize: i32, height: i32) -> int {
    if k == 0 {
        linesize * height
    } else {
        half(linesize * height)
    }
}

/// The size of plane `k` can be computed in `i32`, and is the size of something.
pub open spec fn plane_fits(k: int, linesize: i32, height: i32) -> bool {
    &&& i32::MIN <= linesize * height <= i32::MAX
    &&& 0 <= plane_len(k, linesize, height)
}

/// How many planes of a picture are taken over: none if the number is not that
/// of a supported pixel format.
pub open spec fn planes_taken(pixfmt: i32) -> nat {
    match AVPixelFormat::spec_from_code(pixfmt) {
        Some(format) => format.plane_count(),
        None => 0,
    }
}

/// All planes that are taken over have a size.
pub open spec fn planes_fit(pixfmt: i32, height: i32, linesizes: Seq<i32>) -> bool {
    forall|k: int|
        0 <= k < planes_taken(pixfmt) ==> plane_fits(k, #[trigger] linesizes[k], height)
}

/// The sizes of the planes that are taken over.
pub open spec fn plane_lens(pixfmt: i32, height: i32, linesizes: Seq<i32>) -> Seq<int> {
    Seq::new(planes_taken(pixfmt), |k: int| plane_len(k, linesizes[k], height))
}

/// The number of bytes in plane `k`, `None` where that number overflows or is
/// negative.
fn checked_plane_len(k: usize, linesize: i32, height: i32) -> (res: Option<usize>)
    ensures
        res is Some <==> plane_fits(k as int, linesize, height),
        res matches Some(len) ==> len == plane_len(k as int, linesize, height),
{
    let size: i32 = match linesize.checked_mul(height) {
        Some(size) => size,
        None => {
            return None;
        },
    };
    if size >= 0 {
        Some(
            if k == 0 {
                size as usize
            } else {
                (size / 2) as usize
            },
        )
    } else if k != 0 && size == -1 {
        Some(0)
    } else {
        None
    }
}

/// How many bytes are to be read of each plane of a picture with these numbers.
/// An unsupported pixel format has no planes to read; `None` says that some plane
/// has no size, because `linesize * height` overflows or is negative.
pub fn plane_sizes(pixfmt: i32, height: i32, linesizes: &[i32]) -> (res: Option<Vec<usize>>)
    requires
        linesizes@.len() == AV_NUM_DATA_POINTERS,
    ensures
        res is Some <==> planes_fit(pixfmt, height, linesizes@),
        res matches Some(sizes) ==> sizes@.map_values(|size: usize| size as int) == plane_lens(
            pixfmt,
            height,
            linesizes@,
        ),
{
    let count: usize = match AVPixelFormat::from_code(pixfmt) {
        Some(AVPixelFormat::AV_PIX_FMT_YUV420P) => 3,
        Some(AVPixelFormat::AV_PIX_FMT_NV12) => 2,
        None => 0,
    };
    let mut sizes: Vec<usize> = Vec::new();
    let mut k: usize = 0;
    while k < count
        invariant
            count == planes_taken(pixfmt),
            k <= count <= 3,
            linesizes@.len() == AV_NUM_DATA_POINTERS,
            sizes@.len() == k,
            forall|j: int|
                0 <= j < k ==> plane_fits(j, #[trigger] linesizes@[j], height) && sizes@[j]
                    == plane_len(j, linesizes@[j], height),
        decreases count - k,
    {
        match checked_plane_len(k, linesizes[k], height) {
            Some(size) => {
                sizes.push(size);
            },
            None => {
                assert(!plane_fits(k as int, linesizes@[k as int], height));
                return None;
            },
        }
        k = k + 1;
    }
    assert(sizes@.map_values(|size: usize| size as int) =~= plane_lens(
        pixfmt,
        height,
        linesizes@,
    ));
    Some(sizes)
}

impl RawFrame {
    /// There is a line size and a data buffer for each of FFmpeg's pointers, and
    /// each plane that is taken over has a size and at least that many bytes.
    pub open spec fn well_formed(self) -> bool {
        &&& self.linesizes@.len() == AV_NUM_DATA_POINTERS
        &&& self.datas@.len() == AV_NUM_DATA_POINTERS
        &&& planes_fit(self.pixfmt, self.height, self.linesizes@)
        &&& forall|k: int|
            0 <= k < planes_taken(self.pixfmt) ==> plane_len(
                k,
                #[trigger] self.linesizes@[k],
                self.height,
            ) <= self.datas@[k]@.len()
    }

    /// The frame that is made of the picture: the planes cut to their sizes, with
    /// their line sizes. A picture in an unsupported format makes none.
    pub open spec fn frame(self) -> Option<FrameView> {
        match AVPixelFormat::spec_from_code(self.pixfmt) {
            Some(format) => Some(
                FrameView {
                    pixfmt: format,
                    width: self.width,
                    height: self.height,
                    data: Seq::new(
                        format.plane_count(),
                        |k: int|
                            self.datas@[k]@.take(plane_len(k, self.linesizes@[k], self.height)),
                    ),
                    linesize: self.linesizes@.take(format.plane_count() as int),
                    key: self.key != 0,
                },
            ),
            None => None,
        }
    }
}

/// The frames made of a list of pictures, in the order of the pictures.
pub open spec fn frames_of(raws: Seq<RawFrame>) -> Seq<FrameView>
    decreases raws.len(),
{
    if raws.len() == 0 {
        Seq::empty()
    } else {
        match raws.last().frame() {
            Some(frame) => frames_of(raws.drop_last()).push(frame),
            None => frames_of(raws.drop_last()),
        }
    }
}

/// A frame has as many planes as line sizes, and each plane holds its line size
/// times the height, or half that, in bytes.
pub proof fn law_frame_layout(raw: RawFrame)
    requires
        raw.well_formed(),
    ensures
        raw.frame() matches Some(frame) ==> {
            &&& frame.data.len() == frame.linesize.len()
            &&& frame.data.len() == frame.pixfmt.plane_count()
            &&& forall|k: int|
                0 <= k < frame.data.len() ==> #[trigger] frame.data[k].len() == plane_len(
                    k,
                    frame.linesize[k],
                    frame.height,
                )
        },
{
    if let Some(frame) = raw.frame() {
        assert forall|k: int| 0 <= k < frame.data.len() implies #[trigger] frame.data[k].len()
            == plane_len(k, frame.linesize[k], frame.height) by {
            assert(plane_fits(k, raw.linesizes@[k], raw.height));
        }
    }
}

/// The frames of two lists of pictures in a row are those of the one, then those of
/// the other: what is made of a picture does not depend on the pictures around it.
pub proof fn law_frames_follow_pictures(a: Seq<RawFrame>, b: Seq<RawFrame>)
    ensures
        frames_of(a + b) == frames_of(a) + frames_of(b),
    decreases b.len(),
{
    if b.len() == 0 {
        assert(a + b =~= a);
        assert(frames_of(a) + frames_of(b) =~= frames_of(a));
    } else {
        law_frames_follow_pictures(a, b.drop_last());
        assert((a + b).drop_last() =~= a + b.drop_last());
        assert((a + b).last() == b.last());
        assert(frames_of(a + b) =~= frames_of(a) + frames_of(b));
    }
}

} // verus!
