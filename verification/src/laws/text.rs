//! Laws of decimal text and of the text of a frame.
use crate::ffmpeg::AVPixelFormat;
use crate::ffmpeg_ram::frame::DecodeFrame;
use crate::text;
use crate::text::{push_decimal, push_digits};
use vstd::prelude::*;

verus! {

/// The number that a text of decimal digits stands for.
pub open spec fn number(s: Seq<char>) -> int
    decreases s.len(),
{
    if s.len() == 0 {
        0
    } else {
        10 * number(s.drop_last()) + (s.last() as int - 48)
    }
}

/// Nothing but decimal digits, at least one, and no zero in front of others.
pub open spec fn is_plain_number(s: Seq<char>) -> bool {
    &&& s.len() > 0
    &&& forall|i: int| 0 <= i < s.len() ==> 48 <= #[trigger] s[i] as int <= 57
    &&& s.len() > 1 ==> s[0] as int != 48
}

/// The digits of a number are a plain number, which reads back as that number.
pub proof fn law_digits_read_back(n: nat)
    ensures
        is_plain_number(text::digits(n)),
        number(text::digits(n)) == n,
        n > 0 ==> text::digits(n)[0] as int != 48,
    decreases n,
{
    reveal_with_fuel(number, 2);
    let s = text::digits(n);
    if n < 10 {
        assert(s.drop_last() =~= Seq::<char>::empty());
    } else {
        law_digits_read_back(n / 10);
        assert(s.drop_last() =~= text::digits(n / 10));
        assert(s[0] == text::digits(n / 10)[0]);
    }
}

/// What is appended for an unsigned number is a plain number, which reads back as
/// that number; what was there before stays.
pub proof fn law_push_digits(s: &mut String, n: u64)
    requires
        call_ensures(push_digits, (s, n), ()),
    ensures
        old(s)@.is_prefix_of(final(s)@),
        is_plain_number(final(s)@.skip(old(s)@.len() as int)),
        number(final(s)@.skip(old(s)@.len() as int)) == n,
{
    law_digits_read_back(n as nat);
    assert(final(s)@.skip(old(s)@.len() as int) =~= text::digits(n as nat));
}

/// The text of a number is a plain number, with a minus sign in front exactly if the
/// number is negative, and reads back as that number.
pub proof fn law_decimal_reads_back(n: int)
    ensures
        n >= 0 ==> is_plain_number(text::decimal(n)) && number(text::decimal(n)) == n,
        n < 0 ==> {
            &&& text::decimal(n)[0] as int == 45
            &&& is_plain_number(text::decimal(n).skip(1))
            &&& number(text::decimal(n).skip(1)) == -n
        },
{
    if n < 0 {
        law_digits_read_back((-n) as nat);
        assert(text::decimal(n).skip(1) =~= text::digits((-n) as nat));
    } else {
        law_digits_read_back(n as nat);
    }
}

/// What is appended for a signed number is its text, sign included; what was there
/// before stays.
pub proof fn law_push_decimal(s: &mut String, n: i32)
    requires
        call_ensures(push_decimal, (s, n), ()),
    ensures
        old(s)@.is_prefix_of(final(s)@),
        n >= 0 ==> {
            let added = final(s)@.skip(old(s)@.len() as int);
            is_plain_number(added) && number(added) == n
        },
        n < 0 ==> {
            let added = final(s)@.skip(old(s)@.len() as int);
            added[0] as int == 45 && is_plain_number(added.skip(1)) && number(added.skip(1)) == -n
        },
{
    law_decimal_reads_back(n as int);
    assert(final(s)@.skip(old(s)@.len() as int) =~= text::decimal(n as int));
}

/// A list of numbers is written one number after the other, each followed by a
/// space.
pub proof fn law_spaced(ns: Seq<int>, n: int)
    ensures
        text::spaced(Seq::<int>::empty()).len() == 0,
        text::spaced(ns.push(n)) == (text::spaced(ns) + text::decimal(n)).push(' '),
{
    assert(ns.push(n).drop_last() =~= ns);
    assert(text::spaced(ns.push(n)) =~= (text::spaced(ns) + text::decimal(n)).push(' '));
}

/// The text of a frame names, in this order: the number of its pixel format, its
/// width, its height, whether it is a key frame, the length of each plane, and each
/// line size.
pub proof fn law_frame_text(frame: DecodeFrame, res: String)
    requires
        call_ensures(DecodeFrame::to_string, (&frame,), res),
    ensures
        ({
            let format: int = if frame.pixfmt == AVPixelFormat::AV_PIX_FMT_YUV420P {
                0
            } else {
                23
            };
            let key = if frame.key {
                "true"@
            } else {
                "false"@
            };
            let lens = Seq::new(frame.data@.len(), |k: int| frame.data@[k]@.len() as int);
            let sizes = Seq::new(frame.linesize@.len(), |k: int| frame.linesize@[k] as int);
            res@ == "fixfmt:"@ + text::decimal(format) + ", width:"@ + text::decimal(
                frame.width as int,
            ) + ", height:"@ + text::decimal(frame.height as int) + ",key:"@ + key + ", data:"@
                + text::spaced(lens) + ", linesize:"@ + text::spaced(sizes)
        }),
{
    let lens = Seq::new(frame.data@.len(), |k: int| frame.data@[k]@.len() as int);
    let sizes = Seq::new(frame.linesize@.len(), |k: int| frame.linesize@[k] as int);
    assert(lens =~= frame@.data_lens());
    assert(sizes =~= frame@.line_sizes());
    reveal_strlit(", ");
    reveal_strlit("data:");
    reveal_strlit(", data:");
    assert(", "@ + "data:"@ =~= ", data:"@);
    let head = "fixfmt:"@ + text::decimal(frame.pixfmt.spec_code() as int) + ", width:"@
        + text::decimal(frame.width as int) + ", height:"@ + text::decimal(frame.height as int)
        + ",key:"@ + text::truth(frame.key);
    assert(head + ", "@ + ("data:"@ + text::spaced(lens) + ", linesize:"@ + text::spaced(sizes))
        =~= head + (", "@ + "data:"@) + text::spaced(lens) + ", linesize:"@ + text::spaced(sizes));
}

} // verus!
