//! Quick screenshots: which windows are offered, and how captured pixels become
//! an image.

use crate::order::{in_order, insert_by, lemma_sorted_by, sorted_by};
use crate::outside::{base64_encode, base64_text, bytes_result, png_encode, png_of};
use crate::text::{
    before, dec, dec_int, decimal_int, is_before, lemma_before_total, lemma_before_transitive,
    parse_i64, parse_int_of, same, text_result, trim, trimmed,
};
use vstd::prelude::*;

verus! {

/// A window that can be captured.
pub struct WindowInfo {
    /// The window handle in decimal.
    pub id: String,
    pub title: String,
    /// The file name of its process; empty when that cannot be read.
    pub process: String,
    pub pid: u32,
}

#[verifier::ext_equal]
pub struct WindowV {
    pub id: Seq<char>,
    pub title: Seq<char>,
    pub process: Seq<char>,
    pub pid: u32,
}

impl View for WindowInfo {
    type V = WindowV;

    open spec fn view(&self) -> WindowV {
        WindowV { id: self.id@, title: self.title@, process: self.process@, pid: self.pid }
    }
}

pub open spec fn window_views(v: Seq<WindowInfo>) -> Seq<WindowV> {
    v.map_values(|w: WindowInfo| w@)
}

/// A top-level window as the system reports it.
pub struct FoundWindow {
    pub handle: i64,
    pub title: String,
    pub visible: bool,
    /// A floating palette.
    pub is_tool: bool,
    pub process: String,
    pub pid: u32,
}

pub struct FoundV {
    pub handle: i64,
    pub title: Seq<char>,
    pub visible: bool,
    pub is_tool: bool,
    pub process: Seq<char>,
    pub pid: u32,
}

impl View for FoundWindow {
    type V = FoundV;

    open spec fn view(&self) -> FoundV {
        FoundV {
            handle: self.handle,
            title: self.title@,
            visible: self.visible,
            is_tool: self.is_tool,
            process: self.process@,
            pid: self.pid,
        }
    }
}

pub open spec fn found_views(v: Seq<FoundWindow>) -> Seq<FoundV> {
    v.map_values(|w: FoundWindow| w@)
}

/// Whether a window with these traits is offered: visible, with a title, no tool
/// window, and not one of this process.
pub open spec fn offerable(
    visible: bool,
    title: Seq<char>,
    is_tool: bool,
    pid: u32,
    own_pid: u32,
) -> bool {
    visible && trimmed(title).len() > 0 && !is_tool && pid != 0 && pid != own_pid
}

/// Whether a window is offered.
pub open spec fn is_offered(w: FoundV, own_pid: u32) -> bool {
    offerable(w.visible, w.title, w.is_tool, w.pid, own_pid)
}

/// The entry of an offered window.
pub open spec fn entry_of(
    handle: i64,
    title: Seq<char>,
    process: Seq<char>,
    pid: u32,
) -> WindowV {
    WindowV { id: dec_int(handle as int), title: trimmed(title), process, pid }
}

/// How a window is offered.
pub open spec fn offer_of(w: FoundV) -> WindowV {
    entry_of(w.handle, w.title, w.process, w.pid)
}

/// The windows that are offered, in the order in which they were found.
pub open spec fn offers_in_turn(found: Seq<FoundV>, own_pid: u32) -> Seq<WindowV>
    decreases found.len(),
{
    if found.len() == 0 {
        Seq::empty()
    } else {
        let rest = offers_in_turn(found.drop_last(), own_pid);
        if is_offered(found.last(), own_pid) {
            rest.push(offer_of(found.last()))
        } else {
            rest
        }
    }
}

/// The order of the process names.
pub open spec fn process_order() -> spec_fn(WindowV, WindowV) -> bool {
    |a: WindowV, b: WindowV| before(a.process, b.process)
}

/// The windows that are offered, by the names of their processes; those of one
/// process in the order in which they were found.
pub open spec fn offers_of(found: Seq<FoundV>, own_pid: u32) -> Seq<WindowV> {
    sorted_by(offers_in_turn(found, own_pid), process_order())
}

/// Whether a window with these traits is offered.
pub fn window_listed(visible: bool, title: &str, is_tool: bool, pid: u32, own_pid: u32) -> (r: bool)
    ensures
        r == offerable(visible, title@, is_tool, pid, own_pid),
{
    visible && !trim(title).as_str().is_empty() && !is_tool && pid != 0 && pid != own_pid
}

/// The entry of an offered window.
pub fn window_entry(handle: i64, title: &str, process: &str, pid: u32) -> (r: WindowInfo)
    ensures
        r@ == entry_of(handle, title@, process@, pid),
{
    WindowInfo {
        id: decimal_int(handle as i128),
        title: trim(title),
        process: process.to_string(),
        pid,
    }
}

fn insert_window(v: &mut Vec<WindowInfo>, w: WindowInfo)
    ensures
        window_views(final(v)@) == insert_by(window_views(old(v)@), w@, process_order()),
{
    let ghost start = v@;
    let ghost s = window_views(start);
    let ghost x = w@;
    let ghost less = process_order();
    let mut n: usize = v.len();
    assert(s.take(n as int) =~= s);
    assert(insert_by(s.take(n as int), x, less) + s.skip(n as int) =~= insert_by(s, x, less));
    while n > 0 && is_before(&w.process, &v[n - 1].process)
        invariant
            n <= v@.len(),
            v@ == start,
            start == old(v)@,
            s == window_views(start),
            x == w@,
            less == process_order(),
            insert_by(s, x, less) == insert_by(s.take(n as int), x, less) + s.skip(n as int),
        decreases n,
    {
        let ghost t = s.take(n as int);
        assert(t.drop_last() =~= s.take(n - 1));
        assert(t.last() == v@[n - 1]@);
        assert(insert_by(t, x, less) + s.skip(n as int) =~= insert_by(s.take(n - 1), x, less)
            + s.skip(n - 1));
        n -= 1;
    }
    let ghost t = s.take(n as int);
    assert(n > 0 ==> t.last() == v@[n - 1]@);
    v.insert(n, w);
    assert(window_views(v@) =~= t.push(x) + s.skip(n as int));
}

/// The windows that are offered, by the names of their processes.
pub fn offered_windows(found: &Vec<FoundWindow>, own_pid: u32) -> (r: Vec<WindowInfo>)
    ensures
        window_views(r@) == offers_of(found_views(found@), own_pid),
{
    let mut out: Vec<WindowInfo> = Vec::new();
    let ghost all = found_views(found@);
    assert(all.take(0) =~= Seq::<FoundV>::empty());
    assert(window_views(out@) =~= offers_of(all.take(0), own_pid));
    let mut i: usize = 0;
    while i < found.len()
        invariant
            i <= found@.len(),
            all == found_views(found@),
            window_views(out@) == offers_of(all.take(i as int), own_pid),
        decreases found@.len() - i,
    {
        let w = &found[i];
        let ghost upto = all.take(i + 1);
        assert(upto.drop_last() =~= all.take(i as int));
        assert(upto.last() == w@);
        if window_listed(w.visible, &w.title, w.is_tool, w.pid, own_pid) {
            let ghost turn = offers_in_turn(upto, own_pid);
            assert(turn.drop_last() =~= offers_in_turn(all.take(i as int), own_pid));
            insert_window(&mut out, window_entry(w.handle, &w.title, &w.process, w.pid));
        }
        i += 1;
    }
    assert(all.take(i as int) =~= all);
    out
}

/// The list of windows holds exactly the offered ones, and is in the order of the
/// process names.
pub proof fn law_offered_windows_are_sorted(found: Seq<FoundV>, own_pid: u32)
    ensures
        in_order(offers_of(found, own_pid), process_order()),
        offers_of(found, own_pid).to_multiset() == offers_in_turn(found, own_pid).to_multiset(),
{
    let less = process_order();
    assert forall|a: WindowV, b: WindowV| #[trigger] less(a, b) implies !less(b, a) by {
        lemma_before_total(a.process, b.process);
    }
    assert forall|a: WindowV, b: WindowV, c: WindowV|
        #![trigger less(b, a), less(c, b)]
        !less(b, a) && !less(c, b) implies !less(c, a) by {
        lemma_before_transitive(a.process, b.process, c.process);
    }
    lemma_sorted_by(offers_in_turn(found, own_pid), less);
}

/// The windows to choose from: those that are offered among the ones that were
/// found. `None` stands for a platform on which none can be captured.
pub fn list_windows(found: &Option<Vec<FoundWindow>>, own_pid: u32) -> (r: Result<
    Vec<WindowInfo>,
    String,
>)
    ensures
        match *found {
            Some(v) => r is Ok && window_views(r->Ok_0@) == offers_of(found_views(v@), own_pid),
            None => r is Err && r->Err_0@ == "window capture is unsupported on this platform"@,
        },
{
    match found {
        Some(v) => Ok(offered_windows(v, own_pid)),
        None => Err("window capture is unsupported on this platform".to_string()),
    }
}

/// A capture on a platform without it.
pub fn capture_window(id: &str) -> (r: Result<String, String>)
    ensures
        text_result(r) == Err::<Seq<char>, Seq<char>>(
            "window capture is unsupported on this platform"@,
        ),
{
    Err("window capture is unsupported on this platform".to_string())
}

/// What an id asks to capture.
#[derive(Clone, Copy, Debug, PartialEq, Eq, Structural)]
pub enum CaptureTarget {
    /// The whole virtual screen.
    Screen,
    /// One window, by its handle.
    Window(i64),
}

/// What the id of a capture asks for.
pub open spec fn asked_capture(id: Seq<char>) -> Result<CaptureTarget, Seq<char>> {
    if id == "screen"@ {
        Ok(CaptureTarget::Screen)
    } else {
        match parse_int_of(id) {
            Some(n) => if i64::MIN <= n <= i64::MAX {
                Ok(CaptureTarget::Window(n as i64))
            } else {
                Err("invalid window id '"@ + id + "'"@)
            },
            None => Err("invalid window id '"@ + id + "'"@),
        }
    }
}

/// Reads the id of a capture.
pub fn capture_target(id: &str) -> (r: Result<CaptureTarget, String>)
    ensures
        match r {
            Ok(CaptureTarget::Screen) => id@ == "screen"@,
            Ok(CaptureTarget::Window(h)) => id@ != "screen"@ && parse_int_of(id@) == Some(h as int),
            Err(e) => {
                &&& id@ != "screen"@
                &&& parse_int_of(id@) is None || !(i64::MIN <= parse_int_of(id@)->0 <= i64::MAX)
                &&& e@ == "invalid window id '"@ + id@ + "'"@
            },
        },
        asked_capture(id@) == (match r {
            Ok(t) => Ok(t),
            Err(e) => Err(e@),
        }),
{
    if same(id, "screen") {
        return Ok(CaptureTarget::Screen);
    }
    match parse_i64(id) {
        Some(h) => Ok(CaptureTarget::Window(h)),
        None => {
            let mut e = "invalid window id '".to_string();
            e.append(id);
            e.append("'");
            Err(e)
        },
    }
}

/// The id of an offered window names it again.
pub proof fn law_window_id_names_the_window(handle: i64)
    ensures
        parse_int_of(dec_int(handle as int)) == Some(handle as int),
{
    let n = handle as int;
    if n < 0 {
        let t = dec_int(n);
        crate::text::lemma_dec_value((-n) as nat);
        assert(t.drop_first() =~= dec((-n) as nat));
        assert(t[0] == '-');
    } else {
        crate::text::lemma_dec_value(n as nat);
        let t = dec(n as nat);
        assert(crate::text::digit(t[0]));
    }
}

/// Four-byte pixels with the first and third byte exchanged.
pub open spec fn swapped(p: Seq<u8>) -> Seq<u8> {
    Seq::new(
        p.len(),
        |i: int|
            if i - i % 4 + 4 <= p.len() && i % 4 == 0 {
                p[i + 2]
            } else if i - i % 4 + 4 <= p.len() && i % 4 == 2 {
                p[i - 2]
            } else {
                p[i]
            },
    )
}

/// Turns blue-green-red pixels into red-green-blue ones. Bytes behind the last
/// whole pixel are kept.
pub fn swap_red_and_blue(pixels: Vec<u8>) -> (r: Vec<u8>)
    ensures
        r@ == swapped(pixels@),
{
    let n: usize = pixels.len();
    let mut out: Vec<u8> = Vec::new();
    let mut i: usize = 0;
    while i < n
        invariant
            i <= n,
            n == pixels@.len(),
            out@ == swapped(pixels@).take(i as int),
        decreases n - i,
    {
        let at: usize = i % 4;
        let whole = n - (i - at) >= 4;
        let b: u8 = if whole && at == 0 {
            pixels[i + 2]
        } else if whole && at == 2 {
            pixels[i - 2]
        } else {
            pixels[i]
        };
        out.push(b);
        i += 1;
    }
    assert(out@ =~= swapped(pixels@));
    out
}

/// Exchanging the colours twice gives the pixels back.
pub proof fn law_swapping_twice_restores(p: Seq<u8>)
    ensures
        swapped(swapped(p)) == p,
{
    let q = swapped(p);
    assert forall|i: int| 0 <= i < p.len() implies #[trigger] swapped(q)[i] == p[i] by {
        let whole = i - i % 4 + 4 <= p.len();
        if whole && i % 4 == 0 {
            assert((i + 2) % 4 == 2);
            assert(swapped(q)[i] == q[i + 2]);
            assert(q[i + 2] == p[i]);
        } else if whole && i % 4 == 2 {
            assert((i - 2) % 4 == 0);
            assert(swapped(q)[i] == q[i - 2]);
            assert(q[i - 2] == p[i]);
        } else {
            assert(swapped(q)[i] == q[i]);
        }
    }
    assert(swapped(q) =~= p);
}

/// Whether a capture is blank.
pub fn all_zero(pixels: &Vec<u8>) -> (r: bool)
    ensures
        r == forall|i: int| 0 <= i < pixels@.len() ==> #[trigger] pixels@[i] == 0,
{
    let mut i: usize = 0;
    while i < pixels.len()
        invariant
            i <= pixels@.len(),
            forall|j: int| 0 <= j < i ==> #[trigger] pixels@[j] == 0,
        decreases pixels@.len() - i,
    {
        if pixels[i] != 0 {
            return false;
        }
        i += 1;
    }
    true
}

pub open spec fn blank_capture() -> Seq<char> {
    "capture produced an empty image — the window may be minimized; restore it and try again"@
}

/// Refuses a capture of no extent.
pub open spec fn extent_guard(width: i32, height: i32) -> Result<(), Seq<char>> {
    if width <= 0 || height <= 0 {
        Err(blank_capture())
    } else {
        Ok(())
    }
}

pub fn check_extent(width: i32, height: i32) -> (r: Result<(), String>)
    ensures
        crate::text::unit_result(r) == extent_guard(width, height),
{
    if width <= 0 || height <= 0 {
        Err(
            "capture produced an empty image — the window may be minimized; restore it and try again".to_string(),
        )
    } else {
        Ok(())
    }
}

/// The base64 form of an encoded image, or the encoder's complaint.
pub open spec fn image_text(png: Result<Seq<u8>, Seq<char>>) -> Result<Seq<char>, Seq<char>> {
    match png {
        Ok(b) => Ok(base64_text(b)),
        Err(e) => Err("PNG encode failed: "@ + e),
    }
}

pub fn image_text_from(png: Result<Vec<u8>, String>) -> (r: Result<String, String>)
    ensures
        text_result(r) == image_text(bytes_result(png)),
{
    match png {
        Ok(b) => Ok(base64_encode(&b)),
        Err(e) => {
            let mut msg = "PNG encode failed: ".to_string();
            msg.append(&e);
            Err(msg)
        },
    }
}

/// Pixels as a PNG in base64. A row that no memory could hold is refused, as are
/// too few pixels.
pub fn encode_png(rgba: Vec<u8>, width: u32, height: u32) -> (r: Result<String, String>)
    requires
        rgba@.len() <= width * height * 4,
    ensures
        text_result(r) == if rgba@.len() < width * height * 4 || width * 4 > usize::MAX {
            Err("captured image has invalid dimensions"@)
        } else {
            image_text(png_of(rgba@, width, height))
        },
{
    let n: usize = rgba.len();
    assert(width * height * 4 <= 0xffff_ffff * 0xffff_ffff * 4) by (nonlinear_arith)
        requires
            width <= 0xffff_ffff,
            height <= 0xffff_ffff,
    ;
    assert(width * height >= 0) by (nonlinear_arith);
    assert(width * height <= 0xffff_ffff * 0xffff_ffff) by (nonlinear_arith)
        requires
            width <= 0xffff_ffff,
            height <= 0xffff_ffff,
    ;
    let need: u128 = width as u128 * height as u128 * 4;
    if (n as u128) < need || width as u128 * 4 > usize::MAX as u128 {
        return Err("captured image has invalid dimensions".to_string());
    }
    image_text_from(png_encode(rgba, width, height))
}

/// A capture out of the bytes that the screen gave: a blank one is refused, the
/// others have their colours put in order and are encoded.
pub open spec fn finished(bgra: Seq<u8>, width: u32, height: u32) -> Result<Seq<char>, Seq<char>> {
    if forall|i: int| 0 <= i < bgra.len() ==> #[trigger] swapped(bgra)[i] == 0 {
        Err(blank_capture())
    } else if bgra.len() < width * height * 4 {
        Err("captured image has invalid dimensions"@)
    } else {
        image_text(png_of(swapped(bgra), width, height))
    }
}

pub fn finish_capture(bgra: Vec<u8>, width: u32, height: u32) -> (r: Result<String, String>)
    requires
        bgra@.len() <= width * height * 4,
    ensures
        text_result(r) == finished(bgra@, width, height),
{
    let rgba = swap_red_and_blue(bgra);
    if all_zero(&rgba) {
        return Err(
            "capture produced an empty image — the window may be minimized; restore it and try again".to_string(),
        );
    }
    assert(rgba.len() > 0);
    assert(width * height * 4 >= width * 4) by (nonlinear_arith)
        requires
            height >= 1 || width == 0,
            width >= 0,
    ;
    encode_png(rgba, width, height)
}

} // verus!
