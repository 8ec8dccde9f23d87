//! The status page: one read-only HTML page that shows the devices the bridge
//! currently manages plus the Matter commissioning QR / pairing code.
//!
//! What the page shows, the QR code as inline SVG, and the HTTP reply.

use vstd::prelude::*;

use crate::bridge::model::DeviceModel;
use crate::bridge::{Bridge, DeviceView};
use crate::text::decimal_text;

verus! {

/// Modules of quiet zone on each side of the QR code, so that scanners read it
/// reliably.
pub const BORDER: u64 = 4;

/// Pre-rendered commissioning info shown on the page (constant for the life of
/// the process, so it's computed once at startup).
#[derive(Debug)]
pub struct Commissioning {
    /// The onboarding QR as inline SVG.
    pub qr_svg: String,
    /// The 11-digit manual pairing code, pretty-printed.
    pub manual_code: String,
    /// The raw `MT:...` QR payload (shown as copyable text).
    pub qr_text: String,
}

/// A QR code: rows of modules from the top down, `true` where one is dark.
#[derive(Debug, Clone)]
pub struct QrMatrix {
    pub rows: Vec<Vec<bool>>,
}

impl QrMatrix {
    /// The code is square, and with its border it has a 31-bit size.
    pub open spec fn wf(&self) -> bool {
        &&& self.rows@.len() + 2 * BORDER <= i32::MAX
        &&& forall|y: int|
            0 <= y < self.rows@.len() ==> (#[trigger] self.rows@[y])@.len() == self.rows@.len()
    }

    /// The code with these rows, if they are those of one.
    pub fn new(rows: Vec<Vec<bool>>) -> (r: Option<QrMatrix>)
        ensures
            ({
                let qr = QrMatrix { rows };
                r == (if qr.wf() {
                    Some(qr)
                } else {
                    None
                })
            }),
    {
        let size: usize = rows.len();
        if size > 0x7fff_ffff - 8 {
            return None;
        }
        let mut y: usize = 0;
        while y < size
            invariant
                size == rows@.len(),
                y <= size,
                forall|k: int| 0 <= k < y ==> (#[trigger] rows@[k])@.len() == size,
            decreases size - y,
        {
            if rows[y].len() != size {
                assert(!(QrMatrix { rows }).wf()) by {
                    assert(rows@[y as int]@.len() != rows@.len());
                }
                return None;
            }
            y = y + 1;
        }
        Some(QrMatrix { rows })
    }

    /// The dark modules among the first `n` of row `y`, as columns and rows.
    pub open spec fn dark_in_row(self, y: int, n: nat) -> Seq<(int, int)>
        decreases n,
    {
        if n == 0 {
            Seq::empty()
        } else {
            let before = self.dark_in_row(y, (n - 1) as nat);
            if self.rows@[y]@[n - 1] {
                before.push((n - 1, y))
            } else {
                before
            }
        }
    }

    /// The dark modules of the first `n` rows.
    pub open spec fn dark_in_rows(self, n: nat) -> Seq<(int, int)>
        decreases n,
    {
        if n == 0 {
            Seq::empty()
        } else {
            self.dark_in_rows((n - 1) as nat) + self.dark_in_row(n - 1, self.rows@.len())
        }
    }

    /// The dark modules, row by row and each row from the left.
    pub open spec fn dark_modules(self) -> Seq<(int, int)> {
        self.dark_in_rows(self.rows@.len())
    }
}

/// The square that stands for the module in a column and a row.
pub open spec fn module_rect(module: (int, int)) -> Seq<char> {
    "<rect x=\""@ + crate::text::decimal((module.0 + BORDER) as nat) + "\" y=\""@
        + crate::text::decimal((module.1 + BORDER) as nat) + "\" width=\"1\" height=\"1\"/>"@
}

/// The squares of some modules, one after the other.
pub open spec fn rects(modules: Seq<(int, int)>) -> Seq<char>
    decreases modules.len(),
{
    if modules.len() == 0 {
        Seq::empty()
    } else {
        rects(modules.drop_last()) + module_rect(modules.last())
    }
}

/// The image of some dark modules on a white ground of `dim` by `dim` units.
pub open spec fn svg_text(dim: nat, modules: Seq<(int, int)>) -> Seq<char> {
    "<svg xmlns=\"http://www.w3.org/2000/svg\" viewBox=\"0 0 "@ + crate::text::decimal(dim) + " "@
        + crate::text::decimal(dim)
        + "\" class=\"qr\" shape-rendering=\"crispEdges\" role=\"img\" aria-label=\"Matter pairing QR code\"><rect width=\""@
        + crate::text::decimal(dim) + "\" height=\""@ + crate::text::decimal(dim)
        + "\" fill=\"#fff\"/><g fill=\"#0b1220\">"@ + rects(modules) + "</g></svg>"@
}

/// Render the Matter onboarding QR as inline SVG (1 unit per module, scaled by
/// CSS). A 4-module quiet zone is included so scanners read it reliably.
pub fn qr_svg(qr: &QrMatrix) -> (r: String)
    requires
        qr.wf(),
    ensures
        r@ == svg_text((qr.rows@.len() + 2 * BORDER) as nat, qr.dark_modules()),
{
    let size: usize = qr.rows.len();
    let mut modules = String::new();
    assert(modules@ =~= rects(qr.dark_in_rows(0)));
    let mut y: usize = 0;
    while y < size
        invariant
            qr.wf(),
            size == qr.rows@.len(),
            y <= size,
            modules@ == rects(qr.dark_in_rows(y as nat)),
        decreases size - y,
    {
        let row = &qr.rows[y];
        let ghost above = qr.dark_in_rows(y as nat);
        assert(above + qr.dark_in_row(y as int, 0) =~= above);
        let mut x: usize = 0;
        while x < size
            invariant
                qr.wf(),
                size == qr.rows@.len(),
                y < size,
                x <= size,
                row@ == qr.rows@[y as int]@,
                row@.len() == size,
                modules@ == rects(above + qr.dark_in_row(y as int, x as nat)),
            decreases size - x,
        {
            let ghost drawn = above + qr.dark_in_row(y as int, x as nat);
            if row[x] {
                modules.append("<rect x=\"");
                modules.append(decimal_text(x as u64 + BORDER).as_str());
                modules.append("\" y=\"");
                modules.append(decimal_text(y as u64 + BORDER).as_str());
                modules.append("\" width=\"1\" height=\"1\"/>");
                proof {
                    let module = (x as int, y as int);
                    let next = above + qr.dark_in_row(y as int, (x + 1) as nat);
                    assert(next =~= drawn.push(module));
                    assert(next.drop_last() =~= drawn);
                    assert(modules@ =~= rects(drawn) + module_rect(module));
                }
            }
            x = x + 1;
        }
        y = y + 1;
    }
    let dim = decimal_text(size as u64 + 2 * BORDER);
    let mut svg = "<svg xmlns=\"http://www.w3.org/2000/svg\" viewBox=\"0 0 ".to_owned();
    svg.append(dim.as_str());
    svg.append(" ");
    svg.append(dim.as_str());
    svg.append(
        "\" class=\"qr\" shape-rendering=\"crispEdges\" role=\"img\" aria-label=\"Matter pairing QR code\"><rect width=\"",
    );
    svg.append(dim.as_str());
    svg.append("\" height=\"");
    svg.append(dim.as_str());
    svg.append("\" fill=\"#fff\"/><g fill=\"#0b1220\">");
    svg.append(modules.as_str());
    svg.append("</g></svg>");
    svg
}

/// `r` is the commissioning info of a node with this onboarding payload, encoded
/// as this QR code, and this pairing code: the two texts as they are, and the
/// image of the code.
pub open spec fn is_commissioning(
    qr_text: Seq<char>,
    qr: QrMatrix,
    manual_code: Seq<char>,
    r: Commissioning,
) -> bool {
    &&& r.qr_svg@ == svg_text((qr.rows@.len() + 2 * BORDER) as nat, qr.dark_modules())
    &&& r.manual_code@ == manual_code
    &&& r.qr_text@ == qr_text
}

/// The commissioning info does not change while the onboarding data stays the
/// same, across restarts too.
pub proof fn law_commissioning_is_constant(
    qr_text: Seq<char>,
    qr: QrMatrix,
    manual_code: Seq<char>,
    r: Commissioning,
    s: Commissioning,
)
    requires
        qr.wf(),
        is_commissioning(qr_text, qr, manual_code, r),
        is_commissioning(qr_text, qr, manual_code, s),
    ensures
        r.qr_svg@ == s.qr_svg@,
        r.manual_code@ == s.manual_code@,
        r.qr_text@ == s.qr_text@,
{
}

/// The commissioning info of a node with this onboarding payload, encoded as
/// this QR code, and this pairing code.
pub fn build_commissioning(qr_text: String, qr: &QrMatrix, manual_code: String) -> (r:
    Commissioning)
    requires
        qr.wf(),
    ensures
        is_commissioning(qr_text@, *qr, manual_code@, r),
{
    Commissioning { qr_svg: qr_svg(qr), manual_code, qr_text }
}

/// What the status page shows.
#[derive(Debug)]
pub struct Page {
    pub devices: Vec<DeviceView>,
    /// How many of the devices are reachable.
    pub online: usize,
    pub qr_svg: String,
    pub manual_code: String,
    pub qr_text: String,
}

/// How many of some devices are reachable.
pub fn online(devices: &Vec<DeviceView>) -> (n: usize)
    ensures
        n == devices@.filter(|d: DeviceView| d.reachable).len(),
{
    let ghost reachable = |d: DeviceView| d.reachable;
    let mut n: usize = 0;
    let mut i: usize = 0;
    assert(devices@.take(0).filter(reachable).len() == 0) by {
        reveal(Seq::filter);
    }
    while i < devices.len()
        invariant
            i <= devices@.len(),
            n <= i,
            reachable == (|d: DeviceView| d.reachable),
            n == devices@.take(i as int).filter(reachable).len(),
        decreases devices@.len() - i,
    {
        proof {
            reveal(Seq::filter);
            let next = devices@.take(i + 1);
            assert(next.drop_last() =~= devices@.take(i as int));
            assert(next.last() == devices@[i as int]);
        }
        if devices[i].reachable {
            n = n + 1;
        }
        i = i + 1;
    }
    assert(devices@.take(devices@.len() as int) =~= devices@);
    n
}

/// The reachable devices are counted alike in the views and in the bridge.
proof fn lemma_online(devices: Seq<DeviceView>)
    ensures
        devices.filter(|d: DeviceView| d.reachable).len() == devices.map_values(
            |d: DeviceView| d@,
        ).filter(|d: DeviceModel| d.reachable).len(),
    decreases devices.len(),
{
    reveal(Seq::filter);
    if devices.len() > 0 {
        lemma_online(devices.drop_last());
        assert(devices.map_values(|d: DeviceView| d@).drop_last() =~= devices.drop_last().map_values(
            |d: DeviceView| d@,
        ));
    }
}

/// What the status page shows now.
pub fn page(bridge: &Bridge, comm: &Commissioning) -> (r: Page)
    requires
        bridge.wf(),
    ensures
        r.devices@.map_values(|d: DeviceView| d@) == bridge@.devices(),
        r.online == bridge@.devices().filter(|d: DeviceModel| d.reachable).len(),
        r.qr_svg@ == comm.qr_svg@,
        r.manual_code@ == comm.manual_code@,
        r.qr_text@ == comm.qr_text@,
{
    let devices = bridge.device_views();
    let online = online(&devices);
    proof {
        lemma_online(devices@);
    }
    Page {
        devices,
        online,
        qr_svg: comm.qr_svg.clone(),
        manual_code: comm.manual_code.clone(),
        qr_text: comm.qr_text.clone(),
    }
}

/// What the page's server does once it has tried to listen.
#[derive(Debug, Clone, Copy, PartialEq, Eq, Structural)]
pub enum ServeStep {
    /// Accept connections, one after the other.
    Accept,
    /// Wait forever: without the page the bridge still works.
    Park,
}

/// What the page's server does once it has tried to listen. A failure only
/// disables the page.
pub fn listening(bound: bool) -> (step: ServeStep)
    ensures
        step == (if bound {
            ServeStep::Accept
        } else {
            ServeStep::Park
        }),
{
    if bound {
        ServeStep::Accept
    } else {
        ServeStep::Park
    }
}

/// The page shown where the real one could not be rendered.
pub const FALLBACK: &'static str = "<!doctype html><title>boss</title><p>internal error";

/// The head of the reply with this body, up to and with the blank line.
pub open spec fn response_head(body: Seq<char>) -> Seq<char> {
    "HTTP/1.1 200 OK\r\nContent-Type: text/html; charset=utf-8\r\nContent-Length: "@
        + crate::text::decimal(vstd::utf8::encode_utf8(body).len())
        + "\r\nConnection: close\r\n\r\n"@
}

/// The reply to any request: the page, or the fallback where rendering failed.
/// The content length counts the bytes of the page.
pub fn response(rendered: Result<String, String>) -> (r: String)
    ensures
        ({
            let body = match rendered {
                Ok(html) => html@,
                Err(_) => FALLBACK@,
            };
            r@ == response_head(body) + body
        }),
{
    let body = match rendered {
        Ok(html) => html,
        Err(_) => FALLBACK.to_owned(),
    };
    let length: usize = body.as_str().as_bytes().len();
    let mut text =
        "HTTP/1.1 200 OK\r\nContent-Type: text/html; charset=utf-8\r\nContent-Length: ".to_owned();
    text.append(decimal_text(length as u64).as_str());
    text.append("\r\nConnection: close\r\n\r\n");
    text.append(body.as_str());
    text
}

proof fn lemma_dark_in_row(qr: QrMatrix, y: int, n: nat)
    ensures
        forall|i: int|
            0 <= i < qr.dark_in_row(y, n).len() ==> {
                let module = #[trigger] qr.dark_in_row(y, n)[i];
                0 <= module.0 < n && module.1 == y && qr.rows@[y]@[module.0]
            },
        forall|i: int, j: int|
            0 <= i < j < qr.dark_in_row(y, n).len() ==> (#[trigger] qr.dark_in_row(y, n)[i]).0 < (
            #[trigger] qr.dark_in_row(y, n)[j]).0,
        forall|x: int|
            0 <= x < n && #[trigger] qr.rows@[y]@[x] ==> qr.dark_in_row(y, n).contains((x, y)),
    decreases n,
{
    if n > 0 {
        lemma_dark_in_row(qr, y, (n - 1) as nat);
        let before = qr.dark_in_row(y, (n - 1) as nat);
        let row = qr.dark_in_row(y, n);
        assert forall|x: int| 0 <= x < n && #[trigger] qr.rows@[y]@[x] implies row.contains(
            (x, y),
        ) by {
            if x == n - 1 {
                assert(row[before.len() as int] == (x, y));
            } else {
                let i = choose|i: int| 0 <= i < before.len() && before[i] == (x, y);
                assert(row[i] == (x, y));
            }
        }
    }
}

/// One module comes before another: in a row further up, or further left in
/// the same row.
pub open spec fn comes_before(a: (int, int), b: (int, int)) -> bool {
    a.1 < b.1 || (a.1 == b.1 && a.0 < b.0)
}

proof fn lemma_dark_in_rows(qr: QrMatrix, n: nat)
    requires
        qr.wf(),
        n <= qr.rows@.len(),
    ensures
        forall|i: int|
            0 <= i < qr.dark_in_rows(n).len() ==> {
                let module = #[trigger] qr.dark_in_rows(n)[i];
                0 <= module.0 < qr.rows@.len() && 0 <= module.1 < n
                    && qr.rows@[module.1]@[module.0]
            },
        forall|i: int, j: int|
            0 <= i < j < qr.dark_in_rows(n).len() ==> comes_before(
                #[trigger] qr.dark_in_rows(n)[i],
                #[trigger] qr.dark_in_rows(n)[j],
            ),
        forall|x: int, y: int|
            0 <= x < qr.rows@.len() && 0 <= y < n && #[trigger] qr.rows@[y]@[x]
                ==> qr.dark_in_rows(n).contains((x, y)),
    decreases n,
{
    if n > 0 {
        lemma_dark_in_rows(qr, (n - 1) as nat);
        lemma_dark_in_row(qr, n - 1, qr.rows@.len());
        let above = qr.dark_in_rows((n - 1) as nat);
        let row = qr.dark_in_row(n - 1, qr.rows@.len());
        let all = qr.dark_in_rows(n);
        assert forall|x: int, y: int|
            0 <= x < qr.rows@.len() && 0 <= y < n
                && #[trigger] qr.rows@[y]@[x] implies all.contains((x, y)) by {
            if y == n - 1 {
                let i = choose|i: int| 0 <= i < row.len() && row[i] == (x, y);
                assert(all[above.len() + i] == (x, y));
            } else {
                let i = choose|i: int| 0 <= i < above.len() && above[i] == (x, y);
                assert(all[i] == (x, y));
            }
        }
    }
}

/// The QR image shows a module exactly if it is dark.
pub proof fn law_dark_modules_are_drawn(qr: QrMatrix, x: int, y: int)
    requires
        qr.wf(),
    ensures
        qr.dark_modules().contains((x, y)) <==> {
            &&& 0 <= x < qr.rows@.len()
            &&& 0 <= y < qr.rows@.len()
            &&& qr.rows@[y]@[x]
        },
{
    lemma_dark_in_rows(qr, qr.rows@.len());
}

/// No module of the QR image is drawn twice: they come row by row, and each
/// row from the left.
pub proof fn law_modules_are_drawn_once(qr: QrMatrix, i: int, j: int)
    requires
        qr.wf(),
        0 <= i < j < qr.dark_modules().len(),
    ensures
        comes_before(qr.dark_modules()[i], qr.dark_modules()[j]),
        qr.dark_modules()[i] != qr.dark_modules()[j],
{
    lemma_dark_in_rows(qr, qr.rows@.len());
}

/// The QR image keeps its quiet zone: every drawn square, one unit wide and
/// high, lies at least `BORDER` units away from each of the four edges.
pub proof fn law_quiet_zone_is_kept(qr: QrMatrix, i: int)
    requires
        qr.wf(),
        0 <= i < qr.dark_modules().len(),
    ensures
        ({
            let dim = qr.rows@.len() + 2 * BORDER;
            let left = qr.dark_modules()[i].0 + BORDER;
            let top = qr.dark_modules()[i].1 + BORDER;
            &&& BORDER <= left && left + 1 <= dim - BORDER
            &&& BORDER <= top && top + 1 <= dim - BORDER
        }),
{
    lemma_dark_in_rows(qr, qr.rows@.len());
}

proof fn lemma_encode_concat(a: Seq<char>, b: Seq<char>)
    ensures
        vstd::utf8::encode_utf8(a + b) == vstd::utf8::encode_utf8(a) + vstd::utf8::encode_utf8(b),
    decreases a.len(),
{
    if a.len() == 0 {
        assert(a + b =~= b);
    } else {
        lemma_encode_concat(a.drop_first(), b);
        assert((a + b).drop_first() =~= a.drop_first() + b);
    }
}

/// A reply is well framed: on the wire it is the bytes of the head, then those
/// of the body, of which there are as many as the head says.
pub proof fn law_content_length_is_right(body: Seq<char>)
    ensures
        ({
            let head = vstd::utf8::encode_utf8(response_head(body));
            let bytes = vstd::utf8::encode_utf8(body);
            let wire = vstd::utf8::encode_utf8(response_head(body) + body);
            &&& wire == head + bytes
            &&& wire.skip(head.len() as int) == bytes
            &&& wire.len() - head.len() == bytes.len()
        }),
        crate::text::starts(
            response_head(body),
            "HTTP/1.1 200 OK\r\nContent-Type: text/html; charset=utf-8\r\nContent-Length: "@
                + crate::text::decimal(vstd::utf8::encode_utf8(body).len()) + "\r\n"@,
        ),
{
    lemma_encode_concat(response_head(body), body);
    let head = vstd::utf8::encode_utf8(response_head(body));
    let bytes = vstd::utf8::encode_utf8(body);
    assert((head + bytes).skip(head.len() as int) =~= bytes);
    reveal_strlit("\r\n");
    reveal_strlit("\r\nConnection: close\r\n\r\n");
    let start = "HTTP/1.1 200 OK\r\nContent-Type: text/html; charset=utf-8\r\nContent-Length: "@
        + crate::text::decimal(bytes.len());
    let line = start + "\r\n"@;
    assert(response_head(body).take(line.len() as int) =~= line);
}

/// Any square of modules is a QR code to draw, and nothing else is.
pub proof fn law_squares_are_codes(qr: QrMatrix)
    ensures
        qr.wf() <==> {
            &&& qr.rows@.len() + 8 <= 0x7fff_ffff
            &&& forall|y: int|
                0 <= y < qr.rows@.len() ==> (#[trigger] qr.rows@[y])@.len() == qr.rows@.len()
        },
{
}

/// The squares are drawn one after the other, each as a `rect` of one unit at
/// the module's column and row, four units further right and down.
pub proof fn law_modules_are_rects(modules: Seq<(int, int)>, x: int, y: int)
    ensures
        rects(Seq::empty()) == Seq::<char>::empty(),
        rects(modules.push((x, y))) == rects(modules) + ("<rect x=\""@ + crate::text::decimal(
            (x + 4) as nat,
        ) + "\" y=\""@ + crate::text::decimal((y + 4) as nat)
            + "\" width=\"1\" height=\"1\"/>"@),
{
    assert(modules.push((x, y)).drop_last() =~= modules);
}

proof fn lemma_rects_split(modules: Seq<(int, int)>, i: int) -> (r: (Seq<char>, Seq<char>))
    requires
        0 <= i < modules.len(),
    ensures
        rects(modules) == r.0 + module_rect(modules[i]) + r.1,
    decreases modules.len(),
{
    if i == modules.len() - 1 {
        assert(rects(modules) =~= rects(modules.drop_last()) + module_rect(modules[i])
            + Seq::<char>::empty());
        (rects(modules.drop_last()), Seq::empty())
    } else {
        let r = lemma_rects_split(modules.drop_last(), i);
        let tail = r.1 + module_rect(modules.last());
        assert(rects(modules) =~= r.0 + module_rect(modules[i]) + tail);
        (r.0, tail)
    }
}

/// Every dark module of a QR code is in the image, at its column and row, four
/// units further right and down.
pub proof fn law_dark_modules_are_in_the_image(qr: QrMatrix, x: int, y: int) -> (around: (
    Seq<char>,
    Seq<char>,
))
    requires
        qr.wf(),
        0 <= x < qr.rows@.len(),
        0 <= y < qr.rows@.len(),
        qr.rows@[y]@[x],
    ensures
        svg_text((qr.rows@.len() + 8) as nat, qr.dark_modules()) == around.0 + ("<rect x=\""@
            + crate::text::decimal((x + 4) as nat) + "\" y=\""@ + crate::text::decimal(
            (y + 4) as nat,
        ) + "\" width=\"1\" height=\"1\"/>"@) + around.1,
{
    law_dark_modules_are_drawn(qr, x, y);
    let dark = qr.dark_modules();
    let i = choose|i: int| 0 <= i < dark.len() && dark[i] == (x, y);
    let r = lemma_rects_split(dark, i);
    let dim = (qr.rows@.len() + 8) as nat;
    law_image_is_framed(dim, dark);
    let head = "<svg xmlns=\"http://www.w3.org/2000/svg\" viewBox=\"0 0 "@ + crate::text::decimal(
        dim,
    ) + " "@ + crate::text::decimal(dim)
        + "\" class=\"qr\" shape-rendering=\"crispEdges\" role=\"img\" aria-label=\"Matter pairing QR code\"><rect width=\""@
        + crate::text::decimal(dim) + "\" height=\""@ + crate::text::decimal(dim)
        + "\" fill=\"#fff\"/><g fill=\"#0b1220\">"@;
    let around = (head + r.0, r.1 + "</g></svg>"@);
    assert(svg_text(dim, dark) =~= around.0 + module_rect((x, y)) + around.1);
    around
}

/// The image is as wide and high as it says in its view box, white all over,
/// with the squares on top in one dark group.
pub proof fn law_image_is_framed(dim: nat, modules: Seq<(int, int)>)
    ensures
        svg_text(dim, modules) == "<svg xmlns=\"http://www.w3.org/2000/svg\" viewBox=\"0 0 "@
            + crate::text::decimal(dim) + " "@ + crate::text::decimal(dim)
            + "\" class=\"qr\" shape-rendering=\"crispEdges\" role=\"img\" aria-label=\"Matter pairing QR code\"><rect width=\""@
            + crate::text::decimal(dim) + "\" height=\""@ + crate::text::decimal(dim)
            + "\" fill=\"#fff\"/><g fill=\"#0b1220\">"@ + rects(modules) + "</g></svg>"@,
{
}

/// Text without a quotation mark ends at the first one.
proof fn lemma_quoted(a: Seq<char>, x: Seq<char>, b: Seq<char>, y: Seq<char>)
    requires
        forall|i: int| 0 <= i < a.len() ==> a[i] != '"',
        forall|i: int| 0 <= i < b.len() ==> b[i] != '"',
        x.len() > 0 && x[0] == '"',
        y.len() > 0 && y[0] == '"',
        a + x == b + y,
    ensures
        a == b,
        x == y,
{
    let s = a + x;
    let t = b + y;
    assert(s[a.len() as int] == '"');
    assert(t[b.len() as int] == '"');
    if a.len() < b.len() {
        assert(t[a.len() as int] == b[a.len() as int]);
    }
    if b.len() < a.len() {
        assert(s[b.len() as int] == a[b.len() as int]);
    }
    assert(a =~= s.take(a.len() as int));
    assert(b =~= t.take(b.len() as int));
    assert(x =~= s.skip(a.len() as int));
    assert(y =~= t.skip(b.len() as int));
}

proof fn lemma_unquoted(n: nat)
    ensures
        forall|i: int| 0 <= i < crate::text::decimal(n).len() ==> crate::text::decimal(n)[i] != '"',
{
    crate::text::lemma_numeral_digits(n, 10);
}

/// Different modules are drawn differently, as no two lie in the same place.
pub proof fn law_modules_are_told_apart(a: (int, int), b: (int, int))
    requires
        0 <= a.0 && 0 <= a.1 && 0 <= b.0 && 0 <= b.1,
        rects(seq![a]) == rects(seq![b]),
    ensures
        a == b,
{
    let start = "<rect x=\""@;
    let middle = "\" y=\""@;
    let end = "\" width=\"1\" height=\"1\"/>"@;
    reveal_strlit("\" y=\"");
    reveal_strlit("\" width=\"1\" height=\"1\"/>");
    let ax = crate::text::decimal((a.0 + 4) as nat);
    let ay = crate::text::decimal((a.1 + 4) as nat);
    let bx = crate::text::decimal((b.0 + 4) as nat);
    let by = crate::text::decimal((b.1 + 4) as nat);
    let none = Seq::<(int, int)>::empty();
    law_modules_are_rects(none, a.0, a.1);
    law_modules_are_rects(none, b.0, b.1);
    assert(none.push(a) =~= seq![a]);
    assert(none.push(b) =~= seq![b]);
    let s = rects(seq![a]);
    let t = rects(seq![b]);
    assert(s =~= start + ax + middle + ay + end);
    assert(t =~= start + bx + middle + by + end);
    let n = start.len() as int;
    assert(s.skip(n) =~= ax + (middle + ay + end));
    assert(t.skip(n) =~= bx + (middle + by + end));
    lemma_unquoted((a.0 + 4) as nat);
    lemma_unquoted((a.1 + 4) as nat);
    lemma_unquoted((b.0 + 4) as nat);
    lemma_unquoted((b.1 + 4) as nat);
    lemma_quoted(ax, middle + ay + end, bx, middle + by + end);
    let p = middle + ay + end;
    let q = middle + by + end;
    assert(p.skip(middle.len() as int) =~= ay + end);
    assert(q.skip(middle.len() as int) =~= by + end);
    lemma_quoted(ay, end, by, end);
    crate::text::law_numerals_are_unique((a.0 + 4) as nat, (b.0 + 4) as nat, 10);
    crate::text::law_numerals_are_unique((a.1 + 4) as nat, (b.1 + 4) as nat, 10);
}

/// The commissioning info gives the two texts as they are, and the image of the
/// QR code with a border of four units on each side.
pub proof fn law_commissioning_is_passed_on(
    qr_text: Seq<char>,
    qr: QrMatrix,
    manual_code: Seq<char>,
    r: Commissioning,
)
    requires
        is_commissioning(qr_text, qr, manual_code, r),
    ensures
        r.qr_text@ == qr_text,
        r.manual_code@ == manual_code,
        r.qr_svg@ == svg_text((qr.rows@.len() + 8) as nat, qr.dark_modules()),
{
}

/// The head of a reply, line by line. Its length line counts the bytes of the
/// body, of whatever length.
pub proof fn law_reply_head_is_written(body: Seq<char>)
    ensures
        response_head(body)
            == "HTTP/1.1 200 OK\r\nContent-Type: text/html; charset=utf-8\r\nContent-Length: "@
            + crate::text::decimal(vstd::utf8::encode_utf8(body).len())
            + "\r\nConnection: close\r\n\r\n"@,
        FALLBACK@ == "<!doctype html><title>boss</title><p>internal error"@,
{
}

} // verus!
