//! How images reach the terminal: by a stream of escape sequences, or by a
//! temporary file that the terminal reads; and when an image is resized or
//! transmitted again.
use vstd::prelude::*;
use vstd::string::StringSliceAdditionalSpecFns;

use crate::geometry::Rect;
use crate::protocol::{
    apc_end, apc_start, base64_encode, base64_len, chunk, chunk_count, chunks_joined, direct_control, direct_frame, direct_frames, direct_transmission, push_apc_end, push_apc_start, push_tmux_end, push_tmux_start, base64_standard, tmp_file_command, tmux_end, tmux_start,
};
use crate::stiv_image::StivImage;
use crate::text::{ascii, push_ascii, push_bytes, push_decimal};

verus! {

/// How the pixels of an image travel to the terminal.
#[derive(Clone, Copy, Debug, PartialEq, Eq, Structural)]
pub enum TransportKind {
    /// Base64 chunks inside escape sequences (works over SSH).
    DirectStream,
    /// A temporary file whose path the terminal is told.
    TmpFile,
}

pub struct RendererView {
    pub transport: TransportKind,
    pub is_tmux: bool,
}

pub struct Renderer {
    transport: TransportKind,
    is_tmux: bool,
}

impl View for Renderer {
    type V = RendererView;

    closed spec fn view(&self) -> RendererView {
        RendererView { transport: self.transport, is_tmux: self.is_tmux }
    }
}

/// The sequence that opens a command: tmux needs its pass-through wrapper.
pub open spec fn start_escape_sequence(is_tmux: bool) -> Seq<u8> {
    if is_tmux {
        tmux_start()
    } else {
        apc_start()
    }
}

/// The sequence that closes a command.
pub open spec fn end_escape_sequence(is_tmux: bool) -> Seq<u8> {
    if is_tmux {
        tmux_end()
    } else {
        apc_end()
    }
}

/// Whether the area an image is placed in has a new size.
pub open spec fn area_size_changed(last_area: Option<Rect>, new_area: Rect) -> bool {
    match last_area {
        Some(last) => new_area.width != last.width || new_area.height != last.height,
        None => false,
    }
}

/// What rendering an image in an area calls for, before the placeholders are
/// drawn.
#[derive(Clone, Copy, Debug, PartialEq, Eq, Structural)]
pub struct RenderPlan {
    /// Fit the image to the area.
    pub resize_to_fit: bool,
    /// Transmit the image to the terminal.
    pub upload: bool,
}

/// Fit the image when it is not transmitted or its area changed size;
/// transmit it when it is not transmitted.
pub open spec fn render_plan(uploaded: bool, last_area: Option<Rect>, new_area: Rect) -> RenderPlan {
    RenderPlan {
        resize_to_fit: !uploaded || area_size_changed(last_area, new_area),
        upload: !uploaded,
    }
}

impl Renderer {
    /// The renderer for the terminal found: direct transmission over SSH,
    /// temporary files otherwise; tmux's escape sequences under tmux.
    pub fn new(is_tmux: bool, is_ssh: bool) -> (r: Renderer)
        ensures
            r@.is_tmux == is_tmux,
            r@.transport == if is_ssh {
                TransportKind::DirectStream
            } else {
                TransportKind::TmpFile
            },
    {
        Renderer {
            transport: if is_ssh {
                TransportKind::DirectStream
            } else {
                TransportKind::TmpFile
            },
            is_tmux: is_tmux,
        }
    }

    pub fn transport(&self) -> (t: TransportKind)
        ensures
            t == self@.transport,
    {
        self.transport
    }

    pub fn is_tmux(&self) -> (b: bool)
        ensures
            b == self@.is_tmux,
    {
        self.is_tmux
    }

    fn push_start(&self, out: &mut Vec<u8>)
        ensures
            final(out)@ == old(out)@ + start_escape_sequence(self@.is_tmux),
    {
        if self.is_tmux {
            push_tmux_start(out);
        } else {
            push_apc_start(out);
        }
    }

    fn push_end(&self, out: &mut Vec<u8>)
        ensures
            final(out)@ == old(out)@ + end_escape_sequence(self@.is_tmux),
    {
        if self.is_tmux {
            push_tmux_end(out);
        } else {
            push_apc_end(out);
        }
    }

    /// Appends the control data of chunk `i`, `last` being the last chunk.
    fn push_direct_control(out: &mut Vec<u8>, id: u32, width: u32, height: u32, i: usize, last: usize)
        ensures
            final(out)@ == old(out)@ + direct_control(i as nat, last as nat, id, width, height),
    {
        let m: u64 = if i == last {
            0
        } else {
            1
        };
        proof {
            reveal_strlit("a=T,f=24,t=d,C=1,U=1,i=");
            reveal_strlit(",s=");
            reveal_strlit(",v=");
            reveal_strlit(",q=2,m=");
            reveal_strlit("m=");
            reveal_strlit(",i=");
            reveal_strlit(",q=2");
        }
        if i == 0 {
            push_ascii(out, "a=T,f=24,t=d,C=1,U=1,i=");
            push_decimal(out, id as u64);
            push_ascii(out, ",s=");
            push_decimal(out, width as u64);
            push_ascii(out, ",v=");
            push_decimal(out, height as u64);
            push_ascii(out, ",q=2,m=");
            push_decimal(out, m);
        } else {
            push_ascii(out, "m=");
            push_decimal(out, m);
            push_ascii(out, ",i=");
            push_decimal(out, id as u64);
            push_ascii(out, ",q=2");
        }
        assert(final(out)@ =~= old(out)@ + direct_control(i as nat, last as nat, id, width, height));
    }

    /// Appends chunk `i` of `encoded`.
    fn push_chunk(out: &mut Vec<u8>, encoded: &Vec<u8>, i: usize)
        requires
            i * 4096 < encoded@.len(),
        ensures
            final(out)@ == old(out)@ + chunk(encoded@, i as nat),
    {
        let n = encoded.len();
        assert(i * 4096 < n);
        let start = i * 4096;
        let end = if n - start > 4096 {
            start + 4096
        } else {
            encoded.len()
        };
        let mut j: usize = start;
        while j < end
            invariant
                start <= j <= end,
                end <= encoded@.len(),
                out@ == old(out)@ + encoded@.subrange(start as int, j as int),
            decreases end - j,
        {
            out.push(encoded[j]);
            j = j + 1;
            assert(encoded@.subrange(start as int, j as int) =~= encoded@.subrange(
                start as int,
                j - 1 as int,
            ).push(encoded@[j - 1]));
        }
        assert(encoded@.subrange(start as int, end as int) =~= chunk(encoded@, i as nat));
    }

    /// Appends frame `i` of the direct transmission of `encoded`.
    fn push_direct_frame(
        &self,
        out: &mut Vec<u8>,
        id: u32,
        width: u32,
        height: u32,
        encoded: &Vec<u8>,
        i: usize,
        last: usize,
    )
        requires
            i * 4096 < encoded@.len(),
            last + 1 == chunk_count(encoded@.len()),
        ensures
            final(out)@ == old(out)@ + direct_frame(
                start_escape_sequence(self@.is_tmux),
                end_escape_sequence(self@.is_tmux),
                id,
                width,
                height,
                encoded@,
                i as nat,
            ),
    {
        self.push_start(out);
        Self::push_direct_control(out, id, width, height, i, last);
        out.push(59u8);
        Self::push_chunk(out, encoded, i);
        self.push_end(out);
        assert(final(out)@ =~= old(out)@ + direct_frame(
            start_escape_sequence(self@.is_tmux),
            end_escape_sequence(self@.is_tmux),
            id,
            width,
            height,
            encoded@,
            i as nat,
        ));
    }

    /// The escape sequences that transmit the displayed image of `stiv_img`
    /// directly: its pixels in base64, cut into chunks of 4096 bytes, one
    /// escape sequence per chunk; the first chunk carries the image's format,
    /// number and size, and each chunk says whether more follow.
    pub fn direct_stream_payload(&self, stiv_img: &StivImage) -> (out: Vec<u8>)
        requires
            base64_len(stiv_img@.displayed.bytes.len()) <= usize::MAX,
        ensures
            out@ == direct_transmission(
                start_escape_sequence(self@.is_tmux),
                end_escape_sequence(self@.is_tmux),
                stiv_img@.id,
                stiv_img@.displayed.width,
                stiv_img@.displayed.height,
                base64_standard(stiv_img@.displayed.bytes),
            ),
    {
        let width = stiv_img.displayed().width();
        let height = stiv_img.displayed().height();
        let encoded = base64_encode(stiv_img.displayed().as_bytes());
        let n = encoded.len();
        let count: usize = n / 4096 + if n % 4096 == 0 {
            0
        } else {
            1
        };
        assert(count == chunk_count(n as nat));
        let last: usize = if count == 0 {
            0
        } else {
            count - 1
        };
        let id = stiv_img.image_id();
        let ghost start = start_escape_sequence(self@.is_tmux);
        let ghost end = end_escape_sequence(self@.is_tmux);
        let mut out: Vec<u8> = Vec::new();
        let mut i: usize = 0;
        while i < count
            invariant
                i <= count,
                count == chunk_count(encoded@.len()),
                n == encoded@.len(),
                count > 0 ==> last + 1 == count,
                out@ == direct_frames(start, end, id, width, height, encoded@, i as nat),
                start == start_escape_sequence(self@.is_tmux),
                end == end_escape_sequence(self@.is_tmux),
            decreases count - i,
        {
            assert(i * 4096 < n) by (nonlinear_arith)
                requires
                    i < count,
                    count == (n + 4095) / 4096,
            ;
            self.push_direct_frame(&mut out, id, width, height, &encoded, i, last);
            i = i + 1;
        }
        out
    }

    /// The escape sequence that tells the terminal to read the displayed
    /// image of `stiv_img` from the file at `path` (its path in base64).
    pub fn tmp_file_command(&self, stiv_img: &StivImage, path: &str) -> (out: Vec<u8>)
        requires
            base64_len(path.spec_bytes().len()) <= usize::MAX,
        ensures
            out@ == tmp_file_command(
                start_escape_sequence(self@.is_tmux),
                end_escape_sequence(self@.is_tmux),
                stiv_img@.id,
                stiv_img@.displayed.width,
                stiv_img@.displayed.height,
                base64_standard(path.spec_bytes()),
            ),
    {
        let width = stiv_img.displayed().width();
        let height = stiv_img.displayed().height();
        let encoded_path = base64_encode(path.as_bytes());
        let mut out: Vec<u8> = Vec::new();
        self.push_start(&mut out);
        proof {
            reveal_strlit("a=T,f=24,t=f,C=1,U=1,i=");
            reveal_strlit(",s=");
            reveal_strlit(",v=");
            reveal_strlit(",q=2;");
        }
        push_ascii(&mut out, "a=T,f=24,t=f,C=1,U=1,i=");
        push_decimal(&mut out, stiv_img.image_id() as u64);
        push_ascii(&mut out, ",s=");
        push_decimal(&mut out, width as u64);
        push_ascii(&mut out, ",v=");
        push_decimal(&mut out, height as u64);
        push_ascii(&mut out, ",q=2;");
        push_bytes(&mut out, encoded_path.as_slice());
        self.push_end(&mut out);
        assert(out@ =~= tmp_file_command(
            start_escape_sequence(self@.is_tmux),
            end_escape_sequence(self@.is_tmux),
            stiv_img@.id,
            stiv_img@.displayed.width,
            stiv_img@.displayed.height,
            base64_standard(path.spec_bytes()),
        ));
        out
    }

    /// What rendering an image in `new_area` calls for (after any zoom):
    /// fitting the image to the area when it is not transmitted or the area's
    /// size changed since it was placed; transmitting it when it is not
    /// transmitted.
    pub fn plan_render(&self, uploaded: bool, last_area: Option<Rect>, new_area: &Rect) -> (plan:
        RenderPlan)
        ensures
            plan == render_plan(uploaded, last_area, *new_area),
    {
        let area_size_changed = match last_area {
            Some(last) => new_area.width != last.width || new_area.height != last.height,
            None => false,
        };
        RenderPlan {
            resize_to_fit: !uploaded || area_size_changed,
            upload: !uploaded,
        }
    }
}

/// When an image is rendered: one that the terminal does not hold yet is
/// fitted and transmitted; one it holds is never transmitted again, and is
/// fitted again exactly when its new area differs from the area it was
/// placed in, in width or in height (not at all when it was never placed).
pub proof fn lemma_render_refits_on_any_size_change(placed: Option<Rect>, again: Rect)
    ensures
        render_plan(false, placed, again) == (RenderPlan { resize_to_fit: true, upload: true }),
        !render_plan(true, placed, again).upload,
        placed matches Some(p) ==> (render_plan(true, placed, again).resize_to_fit <==> (p.width
            != again.width || p.height != again.height)),
        placed is None ==> !render_plan(true, placed, again).resize_to_fit,
{
}

/// An image rendered again in an area of the size it was transmitted and
/// placed for is neither resized nor transmitted again.
pub proof fn lemma_render_again_is_quiet(placed: Rect, again: Rect)
    requires
        placed.width == again.width,
        placed.height == again.height,
    ensures
        render_plan(true, Some(placed), again) == (RenderPlan {
            resize_to_fit: false,
            upload: false,
        }),
{
}

/// The byte that says whether more chunks follow: `1` for every chunk before
/// the last, `0` for the last.
pub open spec fn more_flag(i: nat, last: nat) -> u8 {
    if i < last {
        49u8
    } else {
        48u8
    }
}

/// The decimal digits of 0 and 1 are the bytes `0` and `1`.
proof fn lemma_dec_flag(m: nat)
    requires
        m <= 1,
    ensures
        crate::protocol::dec(m) == seq![(48 + m) as u8],
{
    reveal_with_fuel(crate::text::decimal, 1);
    let d = crate::text::decimal(m);
    assert(d == seq![crate::text::digit_char(m)]);
    assert(ascii(d) =~= seq![(crate::text::digit_char(m) as u8)]);
    assert(crate::text::digit_char(m) as u8 == (48 + m) as u8);
}

/// In a direct transmission every frame's control data says whether more
/// chunks follow: a frame after the first begins with `m=1` while chunks
/// follow and with `m=0` for the last chunk, and the first frame ends with
/// that flag.
pub proof fn lemma_direct_frames_flag_more_chunks(
    i: nat,
    last: nat,
    id: u32,
    width: u32,
    height: u32,
)
    requires
        i <= last,
    ensures
        i > 0 ==> direct_control(i, last, id, width, height).subrange(0, 3) == seq![
            109u8,
            61u8,
            more_flag(i, last),
        ],
        i == 0 ==> ({
            let c = direct_control(i, last, id, width, height);
            &&& c.len() >= 3
            &&& c.subrange(c.len() - 3, c.len() as int) == seq![109u8, 61u8, more_flag(i, last)]
        }),
{
    let m: nat = if i == last {
        0
    } else {
        1
    };
    lemma_dec_flag(m);
    assert(more_flag(i, last) == (48 + m) as u8);
    let c = direct_control(i, last, id, width, height);
    if i > 0 {
        reveal_strlit("m=");
        reveal_strlit(",i=");
        reveal_strlit(",q=2");
        let head = ascii("m="@) + crate::protocol::dec(m);
        assert(ascii("m="@) =~= seq![109u8, 61u8]);
        assert(head =~= seq![109u8, 61u8, more_flag(i, last)]);
        assert(c == head + ascii(",i="@) + crate::protocol::dec(id as nat) + ascii(",q=2"@));
        assert(c.subrange(0, 3) =~= head);
    } else {
        reveal_strlit(",q=2,m=");
        let lit = ascii(",q=2,m="@);
        assert(lit.len() == 7);
        assert(lit[5] == 109u8 && lit[6] == 61u8);
        let front = ascii("a=T,f=24,t=d,C=1,U=1,i="@) + crate::protocol::dec(id as nat) + ascii(
            ",s="@,
        ) + crate::protocol::dec(width as nat) + ascii(",v="@) + crate::protocol::dec(
            height as nat,
        );
        assert(c == front + lit + crate::protocol::dec(m));
        assert(c.subrange(c.len() - 3, c.len() as int) =~= seq![109u8, 61u8, more_flag(i, last)]);
    }
}

/// The frames of a direct transmission carry the chunks of the encoding in
/// order: stripped of their framing, they give back the whole encoding.
pub proof fn lemma_chunks_rebuild_encoding(encoded: Seq<u8>)
    ensures
        chunks_joined(encoded, chunk_count(encoded.len())) == encoded,
{
    lemma_chunks_joined_prefix(encoded, chunk_count(encoded.len()));
    let k = chunk_count(encoded.len());
    if k > 0 {
        assert(k * 4096 >= encoded.len()) by (nonlinear_arith)
            requires
                k == (encoded.len() + 4095) / 4096,
        ;
    }
    assert(encoded.subrange(0, encoded.len() as int) =~= encoded);
}

/// The first `k` chunks, joined, are the first `min(k * 4096, len)` bytes.
proof fn lemma_chunks_joined_prefix(encoded: Seq<u8>, k: nat)
    requires
        k <= chunk_count(encoded.len()),
    ensures
        chunks_joined(encoded, k) == encoded.subrange(
            0,
            if k * 4096 <= encoded.len() {
                (k * 4096) as int
            } else {
                encoded.len() as int
            },
        ),
    decreases k,
{
    if k > 0 {
        lemma_chunks_joined_prefix(encoded, (k - 1) as nat);
        assert((k - 1) * 4096 + 4096 == k * 4096) by (nonlinear_arith);
        let prev_end: int = if (k - 1) * 4096 <= encoded.len() {
            ((k - 1) * 4096) as int
        } else {
            encoded.len() as int
        };
        assert((k - 1) * 4096 < encoded.len()) by (nonlinear_arith)
            requires
                k - 1 < (encoded.len() + 4095) / 4096,
        ;
        assert(encoded.subrange(0, prev_end) + chunk(encoded, (k - 1) as nat) =~= encoded.subrange(
            0,
            if k * 4096 <= encoded.len() {
                (k * 4096) as int
            } else {
                encoded.len() as int
            },
        ));
    } else {
        assert(encoded.subrange(0, 0) =~= Seq::<u8>::empty());
    }
}

} // verus!
