//! The kitty graphics protocol commands that the viewer writes to the
//! terminal, as bytes.
use base64::Engine;
use vstd::prelude::*;
use vstd::utf8::is_ascii_chars;

use crate::text::{ascii, decimal, push_ascii, push_decimal};

verus! {

/// The symbol of a 6-bit value in the standard base64 alphabet of RFC 4648:
/// `A`-`Z`, `a`-`z`, `0`-`9`, `+`, `/`.
pub open spec fn base64_symbol(v: int) -> u8 {
    if v < 26 {
        (65 + v) as u8
    } else if v < 52 {
        (71 + v) as u8
    } else if v < 62 {
        (v - 4) as u8
    } else if v == 62 {
        43u8
    } else {
        47u8
    }
}

/// The standard base64 encoding of `data` with `=` padding (RFC 4648): each
/// group of three bytes gives four symbols, and a last group of one or two
/// bytes is padded to four.
pub open spec fn base64_standard(data: Seq<u8>) -> Seq<u8>
    decreases data.len(),
{
    if data.len() == 0 {
        Seq::empty()
    } else if data.len() == 1 {
        seq![base64_symbol((data[0] as int) / 4), base64_symbol(((data[0] as int) % 4) * 16), 61u8, 61u8]
    } else if data.len() == 2 {
        seq![
            base64_symbol((data[0] as int) / 4),
            base64_symbol(((data[0] as int) % 4) * 16 + (data[1] as int) / 16),
            base64_symbol(((data[1] as int) % 16) * 4),
            61u8,
        ]
    } else {
        seq![
            base64_symbol((data[0] as int) / 4),
            base64_symbol(((data[0] as int) % 4) * 16 + (data[1] as int) / 16),
            base64_symbol(((data[1] as int) % 16) * 4 + (data[2] as int) / 64),
            base64_symbol((data[2] as int) % 64),
        ] + base64_standard(data.subrange(3, data.len() as int))
    }
}

/// The length of the padded standard base64 encoding of `n` bytes.
pub open spec fn base64_len(n: nat) -> nat {
    4 * ((n + 2) / 3)
}

/// The encoding has the padded length `4 * ceil(n / 3)`.
pub proof fn lemma_base64_len(data: Seq<u8>)
    ensures
        base64_standard(data).len() == base64_len(data.len()),
    decreases data.len(),
{
    if data.len() >= 3 {
        lemma_base64_len(data.subrange(3, data.len() as int));
    }
}

/// Calls `Engine::encode` of `base64::prelude::BASE64_STANDARD`, the
/// engine with the standard alphabet of RFC 4648 and `=` padding. Claimed:
/// the result, as bytes, is that encoding of `data`. `base64::encoded_len`
/// panics where the padded length overflows `usize`, which `requires` leaves
/// out.
#[verifier::external_body]
pub(crate) fn base64_encode(data: &[u8]) -> (res: Vec<u8>)
    requires
        base64_len(data@.len()) <= usize::MAX,
    ensures
        res@ == base64_standard(data@),
{
    base64::prelude::BASE64_STANDARD.encode(data).into_bytes()
}

/// The escape sequence that opens a graphics command.
pub open spec fn apc_start() -> Seq<u8> {
    ascii("\x1b_G"@)
}

/// The escape sequence that closes a graphics command.
pub open spec fn apc_end() -> Seq<u8> {
    ascii("\x1b\\"@)
}

/// The opening sequence of a graphics command passed through tmux.
pub open spec fn tmux_start() -> Seq<u8> {
    ascii("\x1bPtmux;\x1b\x1b_G"@)
}

/// The closing sequence of a graphics command passed through tmux.
pub open spec fn tmux_end() -> Seq<u8> {
    ascii("\x1b\x1b\\\x1b\\"@)
}

pub open spec fn dec(n: nat) -> Seq<u8> {
    ascii(decimal(n))
}

/// The command that deletes image `id` and its placements.
pub open spec fn delete_command(id: u32) -> Seq<u8> {
    apc_start() + ascii("a=d,d=I,i="@) + dec(id as nat) + ascii(",q=2"@) + apc_end()
}

/// The command that places the image `id`, already transmitted, again.
pub open spec fn shm_place_command(id: u32, cols: u16, rows: u16, width: u32, height: u32) -> Seq<
    u8,
> {
    apc_start() + ascii("a=p,U=1,i="@) + dec(id as nat) + ascii(",c="@) + dec(cols as nat)
        + ascii(",r="@) + dec(rows as nat) + ascii(",s="@) + dec(width as nat) + ascii(",v="@)
        + dec(height as nat) + ascii(",q=2"@) + apc_end()
}

/// The command that transmits image `id` through the shared memory object
/// whose path is encoded in `path_b64`, and places it.
pub open spec fn shm_transmit_command(
    id: u32,
    cols: u16,
    rows: u16,
    width: u32,
    height: u32,
    path_b64: Seq<u8>,
) -> Seq<u8> {
    apc_start() + ascii("a=T,f=24,t=s,U=1,i="@) + dec(id as nat) + ascii(",c="@) + dec(
        cols as nat,
    ) + ascii(",r="@) + dec(rows as nat) + ascii(",s="@) + dec(width as nat) + ascii(",v="@)
        + dec(height as nat) + ascii(",q=2;"@) + path_b64 + apc_end()
}

/// The command that transmits image `id` from the file whose path is
/// encoded in `path_b64`, framed by `start` and `end`.
pub open spec fn tmp_file_command(
    start: Seq<u8>,
    end: Seq<u8>,
    id: u32,
    width: u32,
    height: u32,
    path_b64: Seq<u8>,
) -> Seq<u8> {
    start + ascii("a=T,f=24,t=f,C=1,U=1,i="@) + dec(id as nat) + ascii(",s="@) + dec(
        width as nat,
    ) + ascii(",v="@) + dec(height as nat) + ascii(",q=2;"@) + path_b64 + end
}

/// The number of chunks of 4096 bytes that `n` bytes of encoded data make.
pub open spec fn chunk_count(n: nat) -> nat {
    (n + 4095) / 4096
}

/// Chunk `i` of the encoded data.
pub open spec fn chunk(encoded: Seq<u8>, i: nat) -> Seq<u8> {
    let end: int = if (i + 1) * 4096 <= encoded.len() {
        ((i + 1) * 4096) as int
    } else {
        encoded.len() as int
    };
    encoded.subrange((i * 4096) as int, end)
}

/// The control data of chunk `i` of a direct transmission, where `last` is
/// the index of the last chunk.
pub open spec fn direct_control(i: nat, last: nat, id: u32, width: u32, height: u32) -> Seq<u8> {
    let m: nat = if i == last {
        0
    } else {
        1
    };
    if i == 0 {
        ascii("a=T,f=24,t=d,C=1,U=1,i="@) + dec(id as nat) + ascii(",s="@) + dec(width as nat)
            + ascii(",v="@) + dec(height as nat) + ascii(",q=2,m="@) + dec(m)
    } else {
        ascii("m="@) + dec(m) + ascii(",i="@) + dec(id as nat) + ascii(",q=2"@)
    }
}

/// The escape sequence that carries chunk `i` of a direct transmission.
pub open spec fn direct_frame(
    start: Seq<u8>,
    end: Seq<u8>,
    id: u32,
    width: u32,
    height: u32,
    encoded: Seq<u8>,
    i: nat,
) -> Seq<u8> {
    let last: nat = if chunk_count(encoded.len()) == 0 {
        0
    } else {
        (chunk_count(encoded.len()) - 1) as nat
    };
    start + direct_control(i, last, id, width, height) + seq![59u8] + chunk(encoded, i) + end
}

/// The first `k` frames of a direct transmission, one after the other.
pub open spec fn direct_frames(
    start: Seq<u8>,
    end: Seq<u8>,
    id: u32,
    width: u32,
    height: u32,
    encoded: Seq<u8>,
    k: nat,
) -> Seq<u8>
    decreases k,
{
    if k == 0 {
        Seq::empty()
    } else {
        direct_frames(start, end, id, width, height, encoded, (k - 1) as nat) + direct_frame(
            start,
            end,
            id,
            width,
            height,
            encoded,
            (k - 1) as nat,
        )
    }
}

/// The whole direct transmission of an image whose pixels encode to
/// `encoded`: one frame per chunk.
pub open spec fn direct_transmission(
    start: Seq<u8>,
    end: Seq<u8>,
    id: u32,
    width: u32,
    height: u32,
    encoded: Seq<u8>,
) -> Seq<u8> {
    direct_frames(start, end, id, width, height, encoded, chunk_count(encoded.len()))
}

/// The chunks of the encoded data, concatenated in order.
pub open spec fn chunks_joined(encoded: Seq<u8>, k: nat) -> Seq<u8>
    decreases k,
{
    if k == 0 {
        Seq::empty()
    } else {
        chunks_joined(encoded, (k - 1) as nat) + chunk(encoded, (k - 1) as nat)
    }
}

/// Appends the opening sequence of a graphics command.
pub fn push_apc_start(out: &mut Vec<u8>)
    ensures
        final(out)@ == old(out)@ + apc_start(),
{
    proof {
        reveal_strlit("\x1b_G");
    }
    push_ascii(out, "\x1b_G");
}

/// Appends the closing sequence of a graphics command.
pub fn push_apc_end(out: &mut Vec<u8>)
    ensures
        final(out)@ == old(out)@ + apc_end(),
{
    proof {
        reveal_strlit("\x1b\\");
    }
    push_ascii(out, "\x1b\\");
}

/// Appends the opening sequence of a graphics command passed through tmux.
pub fn push_tmux_start(out: &mut Vec<u8>)
    ensures
        final(out)@ == old(out)@ + tmux_start(),
{
    proof {
        reveal_strlit("\x1bPtmux;\x1b\x1b_G");
    }
    push_ascii(out, "\x1bPtmux;\x1b\x1b_G");
}

/// Appends the closing sequence of a graphics command passed through tmux.
pub fn push_tmux_end(out: &mut Vec<u8>)
    ensures
        final(out)@ == old(out)@ + tmux_end(),
{
    proof {
        reveal_strlit("\x1b\x1b\\\x1b\\");
    }
    push_ascii(out, "\x1b\x1b\\\x1b\\");
}

/// Appends `key` (an ASCII literal) followed by the decimal value `n`.
fn push_field(out: &mut Vec<u8>, key: &str, n: u64)
    requires
        is_ascii_chars(key@),
    ensures
        final(out)@ == old(out)@ + ascii(key@) + dec(n as nat),
{
    push_ascii(out, key);
    push_decimal(out, n);
    assert(final(out)@ =~= old(out)@ + ascii(key@) + dec(n as nat));
}

/// The command that deletes image `id` from the terminal.
pub fn build_delete_command(id: u32) -> (res: Vec<u8>)
    ensures
        res@ == delete_command(id),
{
    let mut out: Vec<u8> = Vec::new();
    push_apc_start(&mut out);
    proof {
        reveal_strlit("a=d,d=I,i=");
        reveal_strlit(",q=2");
    }
    push_field(&mut out, "a=d,d=I,i=", id as u64);
    push_ascii(&mut out, ",q=2");
    push_apc_end(&mut out);
    assert(out@ =~= delete_command(id));
    out
}

/// The command that places the already transmitted image `id` again.
pub fn build_shm_place_command(id: u32, cols: u16, rows: u16, width: u32, height: u32) -> (res: Vec<
    u8,
>)
    ensures
        res@ == shm_place_command(id, cols, rows, width, height),
{
    let mut out: Vec<u8> = Vec::new();
    push_apc_start(&mut out);
    proof {
        reveal_strlit("a=p,U=1,i=");
        reveal_strlit(",c=");
        reveal_strlit(",r=");
        reveal_strlit(",s=");
        reveal_strlit(",v=");
        reveal_strlit(",q=2");
    }
    push_field(&mut out, "a=p,U=1,i=", id as u64);
    push_field(&mut out, ",c=", cols as u64);
    push_field(&mut out, ",r=", rows as u64);
    push_field(&mut out, ",s=", width as u64);
    push_field(&mut out, ",v=", height as u64);
    push_ascii(&mut out, ",q=2");
    push_apc_end(&mut out);
    assert(out@ =~= shm_place_command(id, cols, rows, width, height));
    out
}

/// The command that transmits image `id` through shared memory and places
/// it; `path_b64` is the encoded path of the shared memory object.
pub fn build_shm_transmit_command(
    id: u32,
    cols: u16,
    rows: u16,
    width: u32,
    height: u32,
    path_b64: &Vec<u8>,
) -> (res: Vec<u8>)
    ensures
        res@ == shm_transmit_command(id, cols, rows, width, height, path_b64@),
{
    let mut out: Vec<u8> = Vec::new();
    push_apc_start(&mut out);
    proof {
        reveal_strlit("a=T,f=24,t=s,U=1,i=");
        reveal_strlit(",c=");
        reveal_strlit(",r=");
        reveal_strlit(",s=");
        reveal_strlit(",v=");
        reveal_strlit(",q=2;");
    }
    push_field(&mut out, "a=T,f=24,t=s,U=1,i=", id as u64);
    push_field(&mut out, ",c=", cols as u64);
    push_field(&mut out, ",r=", rows as u64);
    push_field(&mut out, ",s=", width as u64);
    push_field(&mut out, ",v=", height as u64);
    push_ascii(&mut out, ",q=2;");
    crate::text::push_bytes(&mut out, path_b64.as_slice());
    push_apc_end(&mut out);
    assert(out@ =~= shm_transmit_command(id, cols, rows, width, height, path_b64@));
    out
}

} // verus!
