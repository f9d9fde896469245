//! The decisions of a connection: which RDP security settings are tried and
//! in what order, the status messages reported on the way, the framebuffer of
//! a VNC session, and how a fast-path bitmap or surface-bits update is decoded.

use vstd::prelude::*;

use crate::numbers::{push_decimal, push_signed_decimal, spec_decimal, spec_signed_decimal};
use crate::config::{push_chars, push_str};
use crate::pixels::{copy_vnc_rect_to_screen, copy_vnc_screen_rect, rect_size_ok, screen_ok, VncRect, PixelFormat};
use crate::text::{chars_of, string_from_chars};

verus! {

/// One way of negotiating RDP security.
#[derive(Clone, Copy, Debug, PartialEq, Eq, Structural)]
pub enum AttemptKind {
    /// CredSSP (NLA) with the configured domain.
    NlaWithDomain,
    /// CredSSP (NLA) without a domain.
    NlaWithoutDomain,
    /// TLS only, no NLA.
    TlsOnly,
}

impl AttemptKind {
    pub open spec fn spec_description(self) -> Seq<char> {
        match self {
            AttemptKind::NlaWithDomain => "CredSSP (NLA) with domain"@,
            AttemptKind::NlaWithoutDomain => "CredSSP (NLA) without domain"@,
            AttemptKind::TlsOnly => "TLS Security (no NLA)"@,
        }
    }

    /// How the attempt is named in status messages.
    pub fn description(self) -> (r: &'static str)
        ensures
            r@ == self.spec_description(),
    {
        match self {
            AttemptKind::NlaWithDomain => "CredSSP (NLA) with domain",
            AttemptKind::NlaWithoutDomain => "CredSSP (NLA) without domain",
            AttemptKind::TlsOnly => "TLS Security (no NLA)",
        }
    }

    /// Whether the attempt enables CredSSP.
    pub fn enable_credssp(self) -> (r: bool)
        ensures
            r == (self != AttemptKind::TlsOnly),
    {
        match self {
            AttemptKind::TlsOnly => false,
            _ => true,
        }
    }

    /// Whether the attempt sends the configured domain.
    pub fn uses_domain(self) -> (r: bool)
        ensures
            r == (self == AttemptKind::NlaWithDomain),
    {
        match self {
            AttemptKind::NlaWithDomain => true,
            _ => false,
        }
    }
}

/// The attempts in the order they are tried: NLA with the domain (only when a
/// domain is set), NLA without it, then TLS only.
pub open spec fn spec_rdp_attempts(has_domain: bool) -> Seq<AttemptKind> {
    if has_domain {
        seq![AttemptKind::NlaWithDomain, AttemptKind::NlaWithoutDomain, AttemptKind::TlsOnly]
    } else {
        seq![AttemptKind::NlaWithoutDomain, AttemptKind::TlsOnly]
    }
}

pub fn rdp_attempts(domain: &str) -> (r: Vec<AttemptKind>)
    ensures
        r@ == spec_rdp_attempts(domain@.len() > 0),
{
    let mut r: Vec<AttemptKind> = Vec::new();
    if domain.unicode_len() > 0 {
        r.push(AttemptKind::NlaWithDomain);
    }
    r.push(AttemptKind::NlaWithoutDomain);
    r.push(AttemptKind::TlsOnly);
    assert(r@ =~= spec_rdp_attempts(domain@.len() > 0));
    r
}

/// "Connecting... Attempt i/n (description)", counting from one.
pub open spec fn spec_attempt_status(index: nat, total: nat, kind: AttemptKind) -> Seq<char> {
    "Connecting... Attempt "@ + spec_decimal(index + 1) + "/"@ + spec_decimal(total) + " ("@ + kind.spec_description()
        + ")"@
}

pub fn attempt_status(index: usize, total: usize, kind: AttemptKind) -> (r: String)
    requires
        index < total,
    ensures
        r@ == spec_attempt_status(index as nat, total as nat, kind),
{
    let mut out: Vec<char> = Vec::new();
    push_str(&mut out, "Connecting... Attempt ");
    push_decimal(&mut out, (index + 1) as u64);
    push_str(&mut out, "/");
    push_decimal(&mut out, total as u64);
    push_str(&mut out, " (");
    push_str(&mut out, kind.description());
    push_str(&mut out, ")");
    assert(out@ =~= spec_attempt_status(index as nat, total as nat, kind));
    string_from_chars(&out)
}

/// What to do next while connecting over RDP.
#[derive(Clone, Debug, PartialEq, Eq)]
pub enum PlanStep {
    /// Try this attempt, reporting `status` first.
    Try { kind: AttemptKind, status: String },
    /// Every attempt failed: report the last failure (empty when none was recorded).
    GiveUp { message: String },
}

/// The RDP attempts of one connection, tried in order until one succeeds.
pub struct AttemptPlan {
    attempts: Vec<AttemptKind>,
    next: usize,
    last_error: String,
}

impl AttemptPlan {
    pub closed spec fn attempts(&self) -> Seq<AttemptKind> {
        self.attempts@
    }

    /// How many attempts have been started.
    pub closed spec fn started(&self) -> nat {
        self.next as nat
    }

    pub closed spec fn last_error(&self) -> Seq<char> {
        self.last_error@
    }

    pub open spec fn wf(&self) -> bool {
        self.started() <= self.attempts().len()
    }

    /// The plan for a connection with this domain; nothing tried yet.
    pub fn new(domain: &str) -> (r: Self)
        ensures
            r.wf(),
            r.attempts() == spec_rdp_attempts(domain@.len() > 0),
            r.started() == 0,
            r.last_error() == Seq::<char>::empty(),
    {
        AttemptPlan { attempts: rdp_attempts(domain), next: 0, last_error: String::new() }
    }

    /// The next attempt with its status message, or the final failure once
    /// every attempt has been started.
    pub fn next_step(&mut self) -> (r: PlanStep)
        requires
            old(self).wf(),
        ensures
            final(self).wf(),
            final(self).attempts() == old(self).attempts(),
            final(self).last_error() == old(self).last_error(),
            old(self).started() < old(self).attempts().len() ==> {
                &&& final(self).started() == old(self).started() + 1
                &&& r matches PlanStep::Try { kind, status } && kind == old(self).attempts()[old(self).started() as int]
                    && status@ == spec_attempt_status(old(self).started(), old(self).attempts().len(), kind)
            },
            old(self).started() == old(self).attempts().len() ==> {
                &&& final(self).started() == old(self).started()
                &&& r matches PlanStep::GiveUp { message } && message@ == old(self).last_error()
            },
    {
        if self.next < self.attempts.len() {
            let kind = self.attempts[self.next];
            let status = attempt_status(self.next, self.attempts.len(), kind);
            self.next = self.next + 1;
            PlanStep::Try { kind, status }
        } else {
            let message = string_from_chars(&chars_of(self.last_error.as_str()));
            PlanStep::GiveUp { message }
        }
    }

    /// Records why the current attempt failed.
    pub fn attempt_failed(&mut self, error: String)
        ensures
            final(self).attempts() == old(self).attempts(),
            final(self).started() == old(self).started(),
            final(self).last_error() == error@,
    {
        self.last_error = error;
    }
}

/// Every attempt is tried exactly once, in order, and the final report is the
/// failure recorded last.
pub proof fn lemma_plan_tries_each_attempt_once(has_domain: bool, i: int)
    requires
        0 <= i < spec_rdp_attempts(has_domain).len(),
    ensures
        spec_rdp_attempts(has_domain).last() == AttemptKind::TlsOnly,
        i < spec_rdp_attempts(has_domain).len() - 1 ==> spec_rdp_attempts(has_domain)[i] != AttemptKind::TlsOnly,
        forall|j: int| 0 <= j < spec_rdp_attempts(has_domain).len() && j != i ==> spec_rdp_attempts(has_domain)[j]
            != spec_rdp_attempts(has_domain)[i],
{
}

/// "host:port" with the port in decimal.
pub open spec fn spec_socket_address(host: Seq<char>, port: i32) -> Seq<char> {
    host + ":"@ + spec_signed_decimal(port as int)
}

pub fn socket_address(host: &str, port: i32) -> (r: String)
    ensures
        r@ == spec_socket_address(host@, port),
{
    let mut out: Vec<char> = Vec::new();
    push_str(&mut out, host);
    push_str(&mut out, ":");
    push_signed_decimal(&mut out, port as i64);
    assert(out@ =~= spec_socket_address(host@, port));
    string_from_chars(&out)
}

/// The status reported when a VNC connection starts.
pub fn vnc_connecting_status(addr: &str) -> (r: String)
    ensures
        r@ == "Connecting VNC to "@ + addr@ + "..."@,
{
    let mut out: Vec<char> = Vec::new();
    push_str(&mut out, "Connecting VNC to ");
    push_str(&mut out, addr);
    push_str(&mut out, "...");
    assert(out@ =~= "Connecting VNC to "@ + addr@ + "..."@);
    string_from_chars(&out)
}

/// The status reported when the VNC server reports an error.
pub fn vnc_error_status(message: &str) -> (r: String)
    ensures
        r@ == "VNC Error: "@ + message@,
{
    let mut out: Vec<char> = Vec::new();
    push_str(&mut out, "VNC Error: ");
    push_str(&mut out, message);
    assert(out@ =~= "VNC Error: "@ + message@);
    string_from_chars(&out)
}

/// The diagnostic line for a fast-path bitmap update.
pub fn bitmap_update_log(rects: usize) -> (r: String)
    ensures
        r@ == "[Rust Log] FastPath Bitmap update: "@ + spec_decimal(rects as nat) + " rects"@,
{
    let mut out: Vec<char> = Vec::new();
    push_str(&mut out, "[Rust Log] FastPath Bitmap update: ");
    push_decimal(&mut out, rects as u64);
    push_str(&mut out, " rects");
    assert(out@ =~= "[Rust Log] FastPath Bitmap update: "@ + spec_decimal(rects as nat) + " rects"@);
    string_from_chars(&out)
}

/// The diagnostic line for fast-path surface commands.
pub fn surface_commands_log(commands: usize) -> (r: String)
    ensures
        r@ == "[Rust Log] FastPath SurfaceCommands: "@ + spec_decimal(commands as nat) + " cmds"@,
{
    let mut out: Vec<char> = Vec::new();
    push_str(&mut out, "[Rust Log] FastPath SurfaceCommands: ");
    push_decimal(&mut out, commands as u64);
    push_str(&mut out, " cmds");
    assert(out@ =~= "[Rust Log] FastPath SurfaceCommands: "@ + spec_decimal(commands as nat) + " cmds"@);
    string_from_chars(&out)
}

/// The framebuffer of a VNC session and whether it changed since the last frame.
pub struct VncScreen {
    width: i32,
    height: i32,
    pixels: Vec<i32>,
    needs_refresh: bool,
}

impl VncScreen {
    pub closed spec fn width(&self) -> i32 {
        self.width
    }

    pub closed spec fn height(&self) -> i32 {
        self.height
    }

    pub closed spec fn pixels(&self) -> Seq<i32> {
        self.pixels@
    }

    pub closed spec fn needs_refresh(&self) -> bool {
        self.needs_refresh
    }

    /// The screen holds exactly width × height pixels.
    pub open spec fn wf(&self) -> bool {
        &&& self.width() >= 0
        &&& self.height() >= 0
        &&& self.width() * self.height() <= i32::MAX
        &&& self.pixels().len() == self.width() * self.height()
    }

    /// A black screen of the requested size.
    pub fn new(width: i32, height: i32) -> (r: Self)
        requires
            width >= 0,
            height >= 0,
            width * height <= i32::MAX,
        ensures
            r.wf(),
            r.width() == width,
            r.height() == height,
            r.pixels() == Seq::new((width * height) as nat, |i: int| 0i32),
            !r.needs_refresh(),
    {
        assert(0 <= width * height) by (nonlinear_arith)
            requires width >= 0, height >= 0;
        let n = (width * height) as usize;
        let pixels = vec_of_zeros(n);
        VncScreen { width, height, pixels, needs_refresh: false }
    }

    pub fn width_px(&self) -> (r: i32)
        ensures
            r == self.width(),
    {
        self.width
    }

    pub fn height_px(&self) -> (r: i32)
        ensures
            r == self.height(),
    {
        self.height
    }

    pub fn pixel_data(&self) -> (r: &[i32])
        ensures
            r@ == self.pixels(),
    {
        self.pixels.as_slice()
    }

    /// The server changed the desktop size: the screen becomes black at the
    /// new size, which is returned for reporting.
    pub fn set_resolution(&mut self, width: u16, height: u16) -> (r: (i32, i32))
        requires
            width * height <= i32::MAX,
        ensures
            final(self).wf(),
            r == (width as i32, height as i32),
            final(self).width() == width as i32,
            final(self).height() == height as i32,
            final(self).pixels() == Seq::new((width * height) as nat, |i: int| 0i32),
            final(self).needs_refresh() == old(self).needs_refresh(),
    {
        let w = width as i32;
        let h = height as i32;
        assert(0 <= w * h) by (nonlinear_arith)
            requires w >= 0, h >= 0;
        self.width = w;
        self.height = h;
        self.pixels = vec_of_zeros((w * h) as usize);
        (w, h)
    }

    /// A raw BGRA rectangle arrived.
    pub fn raw_image(&mut self, rect: &VncRect, data: &[u8])
        requires
            old(self).wf(),
            rect_size_ok(rect.width as int, rect.height as int),
        ensures
            final(self).wf(),
            final(self).width() == old(self).width(),
            final(self).height() == old(self).height(),
            final(self).needs_refresh(),
            forall|i: int| 0 <= i < old(self).pixels().len() ==> final(self).pixels()[i]
                == crate::pixels::blit_pixel(
                    old(self).pixels(),
                    crate::pixels::vnc_rect_blit(old(self).width(), old(self).height(), *rect),
                    crate::pixels::PixelEncoding::Bgra32,
                    data@,
                    i,
                ),
    {
        copy_vnc_rect_to_screen(&mut self.pixels, self.width, self.height, rect, data);
        self.needs_refresh = true;
    }

    /// The server asked to copy a screen area.
    pub fn copy_rect(&mut self, dst: &VncRect, src: &VncRect)
        requires
            old(self).wf(),
        ensures
            final(self).wf(),
            final(self).width() == old(self).width(),
            final(self).height() == old(self).height(),
            final(self).needs_refresh(),
            forall|i: int| 0 <= i < old(self).pixels().len() ==> final(self).pixels()[i]
                == crate::pixels::copied_pixel(old(self).pixels(), old(self).width() as int, old(self).height() as int, *dst, *src, i),
    {
        copy_vnc_screen_rect(&mut self.pixels, self.width, self.height, dst, src);
        self.needs_refresh = true;
    }

    /// At a render tick: whether a frame must be pushed; the screen counts as
    /// shown afterwards.
    pub fn take_frame_due(&mut self) -> (r: bool)
        ensures
            r == old(self).needs_refresh(),
            !final(self).needs_refresh(),
            final(self).width() == old(self).width(),
            final(self).height() == old(self).height(),
            final(self).pixels() == old(self).pixels(),
    {
        let r = self.needs_refresh;
        self.needs_refresh = false;
        r
    }
}

fn vec_of_zeros(n: usize) -> (r: Vec<i32>)
    ensures
        r@ == Seq::new(n as nat, |i: int| 0i32),
{
    let mut r: Vec<i32> = Vec::new();
    let mut i: usize = 0;
    while i < n
        invariant
            i <= n,
            r@ == Seq::new(i as nat, |k: int| 0i32),
        decreases n - i,
    {
        r.push(0);
        i += 1;
        assert(r@ =~= Seq::new(i as nat, |k: int| 0i32));
    }
    r
}

/// How the pixels of one bitmap rectangle are obtained.
#[derive(Clone, Copy, Debug, PartialEq, Eq, Structural)]
pub enum BitmapDecoding {
    /// The bytes are the pixels, in this format.
    Raw(PixelFormat),
    /// Planar (RDP 6.0) codec, decoded to 24-bit RGB.
    Planar,
    /// Interleaved RLE, decoded to the format the decoder reports.
    InterleavedRle,
    /// Not supported: the rectangle is skipped.
    Skip,
}

/// The raw pixel format of an uncompressed rectangle of the given depth.
pub open spec fn spec_raw_format(bpp: int) -> PixelFormat {
    if bpp == 32 {
        PixelFormat::Rgb8
    } else if bpp == 24 {
        PixelFormat::Rgb24
    } else if bpp == 16 {
        PixelFormat::Rgb16
    } else {
        PixelFormat::Rgb15
    }
}

fn raw_format(bpp: u16) -> (r: PixelFormat)
    ensures
        r == spec_raw_format(bpp as int),
{
    if bpp == 32 {
        PixelFormat::Rgb8
    } else if bpp == 24 {
        PixelFormat::Rgb24
    } else if bpp == 16 {
        PixelFormat::Rgb16
    } else {
        PixelFormat::Rgb15
    }
}

/// A fast-path bitmap rectangle: compressed 32-bit data uses the planar codec,
/// other compressed data interleaved RLE; uncompressed data is raw.
pub open spec fn spec_bitmap_decoding(compressed: bool, bpp: u16) -> BitmapDecoding {
    if compressed {
        if bpp == 32 {
            BitmapDecoding::Planar
        } else {
            BitmapDecoding::InterleavedRle
        }
    } else {
        BitmapDecoding::Raw(spec_raw_format(bpp as int))
    }
}

pub fn bitmap_decoding(compressed: bool, bpp: u16) -> (r: BitmapDecoding)
    ensures
        r == spec_bitmap_decoding(compressed, bpp),
{
    if compressed {
        if bpp == 32 {
            BitmapDecoding::Planar
        } else {
            BitmapDecoding::InterleavedRle
        }
    } else {
        BitmapDecoding::Raw(raw_format(bpp))
    }
}

/// A surface-bits command: codec 9, or codec 0 at 32 bits, is planar; other
/// codec-0 data is raw; any other codec is skipped.
pub open spec fn spec_surface_decoding(codec_id: u8, bpp: u8) -> BitmapDecoding {
    if codec_id == 9 || (codec_id == 0 && bpp == 32) {
        BitmapDecoding::Planar
    } else if codec_id == 0 {
        BitmapDecoding::Raw(spec_raw_format(bpp as int))
    } else {
        BitmapDecoding::Skip
    }
}

pub fn surface_decoding(codec_id: u8, bpp: u8) -> (r: BitmapDecoding)
    ensures
        r == spec_surface_decoding(codec_id, bpp),
{
    if codec_id == 9 || (codec_id == 0 && bpp == 32) {
        BitmapDecoding::Planar
    } else if codec_id == 0 {
        BitmapDecoding::Raw(raw_format(bpp as u16))
    } else {
        BitmapDecoding::Skip
    }
}

} // verus!
