//! The Cursor-on-Target (CoT) event model and its deterministic XML wire
//! encoding.
//!
//! An event renders as a single compact line: attributes in a fixed field
//! order, list fields as repeated child elements, the empty archive marker as
//! an empty element, no XML declaration, and exactly two trailing newline
//! characters as the stream delimiter.
use vstd::prelude::*;

use crate::clock::{now_unix_secs, rfc3339_of, rfc3339_utc, TS_MAX};
use crate::numfmt::{dec_int, dec_nat, push_dec_i32, push_dec_u32};
use crate::{RDoASOI, STALE_WINDOW_SECS};

verus! {

/// An integer-valued child element, `<name value="..." />`.
pub struct IntVal {
    pub value: i32,
}

/// A real-valued child element; the value is carried as its decimal
/// rendering, which is all the encoding reads of it.
pub struct FloatVal {
    pub value: String,
}

/// A boolean-valued child element, `<name value="true" />` or `"false"`.
pub struct BoolVal {
    pub value: bool,
}

/// The contact block naming the reporting station.
pub struct Contact {
    pub callsign: String,
}

/// A link to another event point; normally absent.
pub struct Link {
    pub point: String,
}

/// A free-text remark element; normally absent.
pub struct Remark {}

/// The empty archive marker element.
pub struct Archive {}

/// The sensor block of the detail substructure. Real-valued styling
/// attributes are carried as their decimal renderings.
pub struct Sensor {
    pub vfov: u32,
    pub elevation: u32,
    pub fov_blue: String,
    pub fov_red: String,
    pub stroke_weight: String,
    pub roll: u32,
    pub range: i32,
    pub azimuth: i32,
    pub range_line_stroke_weight: String,
    pub fov: u32,
    pub range_line_stroke_color: i32,
    pub fov_green: String,
    pub fov_labels: bool,
    pub display_magnetic_reference: i32,
    pub stroke_color: i32,
    pub range_lines: i32,
    pub fov_alpha: String,
}

/// The detail substructure of an event.
pub struct Detail {
    pub sensor: Sensor,
    pub link: Vec<Link>,
    pub stroke_color: IntVal,
    pub stroke_weight: FloatVal,
    pub fill_color: IntVal,
    pub contact: Contact,
    pub remarks: Vec<Remark>,
    pub archive: Archive,
    pub labels_on: BoolVal,
    pub color: IntVal,
}

/// The geographic point of an event, carried as decimal renderings of
/// degrees and meters.
pub struct Point {
    pub lat: String,
    pub lon: String,
    pub ce: String,
    pub hae: String,
    pub le: String,
}

/// The CoT consumer endpoint a publisher holds its TCP connection to.
pub struct CotsListener {
    pub endpoint: String,
}

/// A Cursor-on-Target event. Timestamps are seconds since the Unix epoch;
/// they render through [`rfc3339_of`] when the event is encoded.
pub struct Event {
    pub version: String,
    pub uid: String,
    pub uid_type: String,
    pub time: i64,
    pub start: i64,
    pub stale: i64,
    pub how: String,
    pub detail: Detail,
    pub point: Point,
}

/// How one character renders inside an XML attribute value: the five
/// predefined entities are escaped, every other character stands as itself.
pub open spec fn esc_char(c: char) -> Seq<char> {
    if c == '&' {
        "&amp;"@
    } else if c == '<' {
        "&lt;"@
    } else if c == '>' {
        "&gt;"@
    } else if c == '"' {
        "&quot;"@
    } else if c == '\'' {
        "&apos;"@
    } else {
        seq![c]
    }
}

/// The escaped rendering of a text value.
pub open spec fn esc(s: Seq<char>) -> Seq<char>
    decreases s.len(),
{
    if s.len() == 0 {
        Seq::<char>::empty()
    } else {
        esc(s.drop_last()) + esc_char(s.last())
    }
}

/// Append the escaped rendering of `s` to `out`.
fn push_escaped(out: &mut String, s: &str)
    ensures
        final(out)@ == old(out)@ + esc(s@),
{
    let n = s.unicode_len();
    let mut i: usize = 0;
    while i < n
        invariant
            n == s@.len(),
            i <= n,
            out@ == old(out)@ + esc(s@.subrange(0, i as int)),
        decreases n - i,
    {
        proof {
            assert(s@.subrange(0, i + 1).drop_last() =~= s@.subrange(0, i as int));
            assert(s@.subrange(0, i + 1).last() == s@[i as int]);
        }
        let c = s.get_char(i);
        if c == '&' {
            out.append("&amp;");
        } else if c == '<' {
            out.append("&lt;");
        } else if c == '>' {
            out.append("&gt;");
        } else if c == '"' {
            out.append("&quot;");
        } else if c == '\'' {
            out.append("&apos;");
        } else {
            let piece = s.substring_char(i, i + 1);
            proof {
                assert(piece@ =~= seq![s@[i as int]]);
            }
            out.append(piece);
        }
        proof {
            assert(out@ =~= old(out)@ + esc(s@.subrange(0, i + 1)));
        }
        i += 1;
    }
    proof {
        assert(s@.subrange(0, s@.len() as int) =~= s@);
    }
}

/// Escaped text never contains a quote or an angle bracket, so a rendered
/// attribute value can neither end its own quoting nor open an element.
pub proof fn lemma_escape_safe(s: Seq<char>, i: int)
    requires
        0 <= i < esc(s).len(),
    ensures
        esc(s)[i] != '"',
        esc(s)[i] != '<',
        esc(s)[i] != '>',
    decreases s.len(),
{
    reveal_strlit("&amp;");
    reveal_strlit("&lt;");
    reveal_strlit("&gt;");
    reveal_strlit("&quot;");
    reveal_strlit("&apos;");
    if s.len() > 0 {
        let pre = esc(s.drop_last());
        if i < pre.len() {
            lemma_escape_safe(s.drop_last(), i);
        } else {
            assert(esc(s)[i] == esc_char(s.last())[i - pre.len()]);
        }
    }
}

/// The rendering of a boolean attribute value.
pub open spec fn bool_str(b: bool) -> Seq<char> {
    if b {
        "true"@
    } else {
        "false"@
    }
}

fn push_bool(out: &mut String, b: bool)
    ensures
        final(out)@ == old(out)@ + bool_str(b),
{
    if b {
        out.append("true");
    } else {
        out.append("false");
    }
}

/// The rendering of an integer-valued child element under `name`.
pub open spec fn int_val_xml(name: Seq<char>, v: i32) -> Seq<char> {
    "<"@ + name + " value=\""@ + dec_int(v as int) + "\" />"@
}

fn push_int_val(out: &mut String, name: &str, v: i32)
    ensures
        final(out)@ == old(out)@ + int_val_xml(name@, v),
{
    out.append("<");
    out.append(name);
    out.append(" value=\"");
    push_dec_i32(out, v);
    out.append("\" />");
    proof {
        assert(out@ =~= old(out)@ + int_val_xml(name@, v));
    }
}

/// The rendering of a boolean-valued child element under `name`.
pub open spec fn bool_val_xml(name: Seq<char>, b: bool) -> Seq<char> {
    "<"@ + name + " value=\""@ + bool_str(b) + "\" />"@
}

fn push_bool_val(out: &mut String, name: &str, b: bool)
    ensures
        final(out)@ == old(out)@ + bool_val_xml(name@, b),
{
    out.append("<");
    out.append(name);
    out.append(" value=\"");
    push_bool(out, b);
    out.append("\" />");
    proof {
        assert(out@ =~= old(out)@ + bool_val_xml(name@, b));
    }
}

/// The rendering of a text-valued child element under `name`.
pub open spec fn str_val_xml(name: Seq<char>, v: Seq<char>) -> Seq<char> {
    "<"@ + name + " value=\""@ + esc(v) + "\" />"@
}

fn push_str_val(out: &mut String, name: &str, v: &str)
    ensures
        final(out)@ == old(out)@ + str_val_xml(name@, v@),
{
    out.append("<");
    out.append(name);
    out.append(" value=\"");
    push_escaped(out, v);
    out.append("\" />");
    proof {
        assert(out@ =~= old(out)@ + str_val_xml(name@, v@));
    }
}

/// The rendering of the leading sensor attributes, through the azimuth.
pub open spec fn sensor_xml_head(s: Sensor) -> Seq<char> {
    "<sensor vfov=\""@ + dec_nat(s.vfov as nat) + "\" elevation=\""@ + dec_nat(s.elevation as nat)
        + "\" fovBlue=\""@ + esc(s.fov_blue@) + "\" fovRed=\""@ + esc(s.fov_red@)
        + "\" strokeWeight=\""@ + esc(s.stroke_weight@) + "\" roll=\""@ + dec_nat(s.roll as nat)
        + "\" range=\""@ + dec_int(s.range as int) + "\" azimuth=\""@ + dec_int(s.azimuth as int)
}

/// The rendering of the trailing sensor attributes, after the azimuth.
pub open spec fn sensor_xml_tail(s: Sensor) -> Seq<char> {
    "\" rangeLineStrokeWeight=\""@ + esc(s.range_line_stroke_weight@) + "\" fov=\""@ + dec_nat(
        s.fov as nat,
    ) + "\" rangeLineStrokeColor=\""@ + dec_int(s.range_line_stroke_color as int)
        + "\" fovGreen=\""@ + esc(s.fov_green@) + "\" fovLabels=\""@ + bool_str(s.fov_labels)
        + "\" displayMagneticReference=\""@ + dec_int(s.display_magnetic_reference as int)
        + "\" strokeColor=\""@ + dec_int(s.stroke_color as int) + "\" rangeLines=\""@ + dec_int(
        s.range_lines as int,
    ) + "\" fovAlpha=\""@ + esc(s.fov_alpha@) + "\" />"@
}

/// The rendering of the sensor block: every attribute in fixed order.
pub open spec fn sensor_xml(s: Sensor) -> Seq<char> {
    sensor_xml_head(s) + sensor_xml_tail(s)
}

#[verifier::rlimit(30)]
fn push_sensor_head(out: &mut String, s: &Sensor)
    ensures
        final(out)@ == old(out)@ + sensor_xml_head(*s),
{
    out.append("<sensor vfov=\"");
    push_dec_u32(out, s.vfov);
    out.append("\" elevation=\"");
    push_dec_u32(out, s.elevation);
    out.append("\" fovBlue=\"");
    push_escaped(out, s.fov_blue.as_str());
    out.append("\" fovRed=\"");
    push_escaped(out, s.fov_red.as_str());
    out.append("\" strokeWeight=\"");
    push_escaped(out, s.stroke_weight.as_str());
    out.append("\" roll=\"");
    push_dec_u32(out, s.roll);
    out.append("\" range=\"");
    push_dec_i32(out, s.range);
    out.append("\" azimuth=\"");
    push_dec_i32(out, s.azimuth);
    proof {
        assert(out@ =~= old(out)@ + sensor_xml_head(*s));
    }
}

#[verifier::rlimit(30)]
fn push_sensor_tail(out: &mut String, s: &Sensor)
    ensures
        final(out)@ == old(out)@ + sensor_xml_tail(*s),
{
    out.append("\" rangeLineStrokeWeight=\"");
    push_escaped(out, s.range_line_stroke_weight.as_str());
    out.append("\" fov=\"");
    push_dec_u32(out, s.fov);
    out.append("\" rangeLineStrokeColor=\"");
    push_dec_i32(out, s.range_line_stroke_color);
    out.append("\" fovGreen=\"");
    push_escaped(out, s.fov_green.as_str());
    out.append("\" fovLabels=\"");
    push_bool(out, s.fov_labels);
    out.append("\" displayMagneticReference=\"");
    push_dec_i32(out, s.display_magnetic_reference);
    out.append("\" strokeColor=\"");
    push_dec_i32(out, s.stroke_color);
    out.append("\" rangeLines=\"");
    push_dec_i32(out, s.range_lines);
    out.append("\" fovAlpha=\"");
    push_escaped(out, s.fov_alpha.as_str());
    out.append("\" />");
    proof {
        assert(out@ =~= old(out)@ + sensor_xml_tail(*s));
    }
}

fn push_sensor(out: &mut String, s: &Sensor)
    ensures
        final(out)@ == old(out)@ + sensor_xml(*s),
{
    push_sensor_head(out, s);
    push_sensor_tail(out, s);
    proof {
        assert(out@ =~= old(out)@ + sensor_xml(*s));
    }
}

/// The rendering of one link element.
pub open spec fn link_xml(l: Link) -> Seq<char> {
    "<link point=\""@ + esc(l.point@) + "\" />"@
}

/// The rendering of a link list: zero or more repeated elements.
pub open spec fn links_xml(ls: Seq<Link>) -> Seq<char>
    decreases ls.len(),
{
    if ls.len() == 0 {
        Seq::<char>::empty()
    } else {
        links_xml(ls.drop_last()) + link_xml(ls.last())
    }
}

fn push_links(out: &mut String, ls: &Vec<Link>)
    ensures
        final(out)@ == old(out)@ + links_xml(ls@),
{
    let mut i: usize = 0;
    while i < ls.len()
        invariant
            i <= ls@.len(),
            out@ == old(out)@ + links_xml(ls@.subrange(0, i as int)),
        decreases ls@.len() - i,
    {
        proof {
            assert(ls@.subrange(0, i + 1).drop_last() =~= ls@.subrange(0, i as int));
            assert(ls@.subrange(0, i + 1).last() == ls@[i as int]);
        }
        out.append("<link point=\"");
        push_escaped(out, ls[i].point.as_str());
        out.append("\" />");
        proof {
            assert(out@ =~= old(out)@ + links_xml(ls@.subrange(0, i + 1)));
        }
        i += 1;
    }
    proof {
        assert(ls@.subrange(0, ls@.len() as int) =~= ls@);
    }
}

/// The rendering of a remark list: zero or more empty elements.
pub open spec fn remarks_xml(rs: Seq<Remark>) -> Seq<char>
    decreases rs.len(),
{
    if rs.len() == 0 {
        Seq::<char>::empty()
    } else {
        remarks_xml(rs.drop_last()) + "<remark />"@
    }
}

fn push_remarks(out: &mut String, rs: &Vec<Remark>)
    ensures
        final(out)@ == old(out)@ + remarks_xml(rs@),
{
    let mut i: usize = 0;
    while i < rs.len()
        invariant
            i <= rs@.len(),
            out@ == old(out)@ + remarks_xml(rs@.subrange(0, i as int)),
        decreases rs@.len() - i,
    {
        proof {
            assert(rs@.subrange(0, i + 1).drop_last() =~= rs@.subrange(0, i as int));
        }
        out.append("<remark />");
        proof {
            assert(out@ =~= old(out)@ + remarks_xml(rs@.subrange(0, i + 1)));
        }
        i += 1;
    }
    proof {
        assert(rs@.subrange(0, rs@.len() as int) =~= rs@);
    }
}

/// The rendering of the detail substructure, children in fixed order.
pub open spec fn detail_xml(d: Detail) -> Seq<char> {
    "<detail>"@ + sensor_xml(d.sensor) + links_xml(d.link@) + int_val_xml(
        "strokeColor"@,
        d.stroke_color.value,
    ) + str_val_xml("strokeWeight"@, d.stroke_weight.value@) + int_val_xml(
        "fillColor"@,
        d.fill_color.value,
    ) + "<contact callsign=\""@ + esc(d.contact.callsign@) + "\" />"@ + remarks_xml(d.remarks@)
        + "<archive />"@ + bool_val_xml("labels_on"@, d.labels_on.value) + int_val_xml(
        "color"@,
        d.color.value,
    ) + "</detail>"@
}

#[verifier::rlimit(30)]
fn push_detail(out: &mut String, d: &Detail)
    ensures
        final(out)@ == old(out)@ + detail_xml(*d),
{
    out.append("<detail>");
    push_sensor(out, &d.sensor);
    push_links(out, &d.link);
    push_int_val(out, "strokeColor", d.stroke_color.value);
    push_str_val(out, "strokeWeight", d.stroke_weight.value.as_str());
    push_int_val(out, "fillColor", d.fill_color.value);
    out.append("<contact callsign=\"");
    push_escaped(out, d.contact.callsign.as_str());
    out.append("\" />");
    push_remarks(out, &d.remarks);
    out.append("<archive />");
    push_bool_val(out, "labels_on", d.labels_on.value);
    push_int_val(out, "color", d.color.value);
    out.append("</detail>");
    proof {
        assert(out@ =~= old(out)@ + detail_xml(*d));
    }
}

/// The rendering of the point element.
pub open spec fn point_xml(p: Point) -> Seq<char> {
    "<point lat=\""@ + esc(p.lat@) + "\" lon=\""@ + esc(p.lon@) + "\" ce=\""@ + esc(p.ce@)
        + "\" hae=\""@ + esc(p.hae@) + "\" le=\""@ + esc(p.le@) + "\" />"@
}

fn push_point(out: &mut String, p: &Point)
    ensures
        final(out)@ == old(out)@ + point_xml(*p),
{
    out.append("<point lat=\"");
    push_escaped(out, p.lat.as_str());
    out.append("\" lon=\"");
    push_escaped(out, p.lon.as_str());
    out.append("\" ce=\"");
    push_escaped(out, p.ce.as_str());
    out.append("\" hae=\"");
    push_escaped(out, p.hae.as_str());
    out.append("\" le=\"");
    push_escaped(out, p.le.as_str());
    out.append("\" />");
    proof {
        assert(out@ =~= old(out)@ + point_xml(*p));
    }
}

/// The rendering of the opening event element with its attributes.
pub open spec fn header_xml(e: Event) -> Seq<char> {
    "<event version=\""@ + esc(e.version@) + "\" uid=\""@ + esc(e.uid@) + "\" type=\""@ + esc(
        e.uid_type@,
    ) + "\" time=\""@ + rfc3339_of(e.time as int) + "\" start=\""@ + rfc3339_of(e.start as int)
        + "\" stale=\""@ + rfc3339_of(e.stale as int) + "\" how=\""@ + esc(e.how@) + "\">"@
}

#[verifier::rlimit(30)]
fn push_header(out: &mut String, e: &Event)
    requires
        e.wf(),
    ensures
        final(out)@ == old(out)@ + header_xml(*e),
{
    out.append("<event version=\"");
    push_escaped(out, e.version.as_str());
    out.append("\" uid=\"");
    push_escaped(out, e.uid.as_str());
    out.append("\" type=\"");
    push_escaped(out, e.uid_type.as_str());
    out.append("\" time=\"");
    let t = rfc3339_utc(e.time);
    out.append(t.as_str());
    out.append("\" start=\"");
    let st = rfc3339_utc(e.start);
    out.append(st.as_str());
    out.append("\" stale=\"");
    let sl = rfc3339_utc(e.stale);
    out.append(sl.as_str());
    out.append("\" how=\"");
    push_escaped(out, e.how.as_str());
    out.append("\">");
    proof {
        assert(out@ =~= old(out)@ + header_xml(*e));
    }
}

/// The full framed rendering of an event: one compact line, no XML
/// declaration, closed by exactly two newline characters.
pub open spec fn xml_of(e: Event) -> Seq<char> {
    header_xml(e) + detail_xml(e.detail) + point_xml(e.point) + "</event>\n\n"@
}

impl Event {
    /// The timestamp discipline every constructed event obeys: `time` equals
    /// `start`, `stale` lies exactly the staleness window after `start`, and
    /// all three render within the clock's range.
    pub open spec fn wf(self) -> bool {
        &&& self.time == self.start
        &&& self.stale == self.start + STALE_WINDOW_SECS
        &&& 0 <= self.start
        &&& self.stale <= TS_MAX
    }

    /// Encode this event for the wire. The encoding is deterministic: it is
    /// a function of the event value alone, so encoding twice yields
    /// byte-identical output.
    pub fn to_xml(&self) -> (r: String)
        requires
            self.wf(),
        ensures
            r@ == xml_of(*self),
    {
        let mut out = String::new();
        push_header(&mut out, self);
        push_detail(&mut out, &self.detail);
        push_point(&mut out, &self.point);
        out.append("</event>\n\n");
        proof {
            assert(out@ =~= xml_of(*self));
        }
        out
    }
}

/// Build the CoT event for a sensor finding, stamped at `now_secs`: `time`
/// and `start` are the stamp, `stale` lies exactly [`STALE_WINDOW_SECS`]
/// later, and the detail block carries the finding's contact, field of view,
/// range and azimuth beside the fixed styling defaults.
pub fn event_from_finding(soi: &RDoASOI, now_secs: i64) -> (e: Event)
    requires
        0 <= now_secs <= TS_MAX - STALE_WINDOW_SECS,
    ensures
        e.wf(),
        e.time == now_secs,
        e.start == now_secs,
        e.stale == now_secs + STALE_WINDOW_SECS,
        e.version@ == "2.0"@,
        e.uid@ == soi.uid@,
        e.uid_type@ == "a-f-G-U-C"@,
        e.how@ == "m-g"@,
        e.detail.sensor.vfov == soi.s_fov,
        e.detail.sensor.elevation == 0,
        e.detail.sensor.fov_blue@ == "0"@,
        e.detail.sensor.fov_red@ == "1"@,
        e.detail.sensor.stroke_weight@ == "0"@,
        e.detail.sensor.roll == 0,
        e.detail.sensor.range == soi.s_range,
        e.detail.sensor.azimuth == soi.azimuth,
        e.detail.sensor.range_line_stroke_weight@ == "0.55"@,
        e.detail.sensor.fov == soi.s_fov,
        e.detail.sensor.range_line_stroke_color == -16777216,
        e.detail.sensor.fov_green@ == "0"@,
        e.detail.sensor.fov_labels == true,
        e.detail.sensor.display_magnetic_reference == 0,
        e.detail.sensor.stroke_color == -16777216,
        e.detail.sensor.range_lines == 500,
        e.detail.sensor.fov_alpha@ == "0.2627451"@,
        e.detail.link@.len() == 0,
        e.detail.stroke_color.value == -1,
        e.detail.stroke_weight.value@ == "4"@,
        e.detail.fill_color.value == -1761607681,
        e.detail.contact.callsign@ == soi.s_contact@,
        e.detail.remarks@.len() == 0,
        e.detail.labels_on.value == false,
        e.detail.color.value == -1,
        e.point.lat@ == "12"@,
        e.point.lon@ == "12"@,
        e.point.ce@ == "10"@,
        e.point.hae@ == "10"@,
        e.point.le@ == "10"@,
{
    Event {
        version: String::from_str("2.0"),
        uid: soi.uid.clone(),
        uid_type: String::from_str("a-f-G-U-C"),
        time: now_secs,
        start: now_secs,
        stale: now_secs + STALE_WINDOW_SECS,
        how: String::from_str("m-g"),
        detail: Detail {
            sensor: Sensor {
                vfov: soi.s_fov,
                elevation: 0,
                fov_blue: String::from_str("0"),
                fov_red: String::from_str("1"),
                stroke_weight: String::from_str("0"),
                roll: 0,
                range: soi.s_range,
                azimuth: soi.azimuth,
                range_line_stroke_weight: String::from_str("0.55"),
                fov: soi.s_fov,
                range_line_stroke_color: -16777216,
                fov_green: String::from_str("0"),
                fov_labels: true,
                display_magnetic_reference: 0,
                stroke_color: -16777216,
                range_lines: 500,
                fov_alpha: String::from_str("0.2627451"),
            },
            link: Vec::new(),
            stroke_color: IntVal { value: -1 },
            stroke_weight: FloatVal { value: String::from_str("4") },
            fill_color: IntVal { value: -1761607681 },
            contact: Contact { callsign: soi.s_contact.clone() },
            remarks: Vec::new(),
            archive: Archive {  },
            labels_on: BoolVal { value: false },
            color: IntVal { value: -1 },
        },
        point: Point {
            lat: String::from_str("12"),
            lon: String::from_str("12"),
            ce: String::from_str("10"),
            hae: String::from_str("10"),
            le: String::from_str("10"),
        },
    }
}

/// Every encoded event opens with its own element, carries no XML
/// declaration before it, and closes with exactly the two newline
/// characters that delimit events on the stream.
pub proof fn lemma_framing(e: Event)
    ensures
        xml_of(e).len() >= 2,
        xml_of(e)[xml_of(e).len() - 1] == '\n',
        xml_of(e)[xml_of(e).len() - 2] == '\n',
        xml_of(e)[0] == '<',
{
    reveal_strlit("</event>\n\n");
    reveal_strlit("<event version=\"");
    let tail = "</event>\n\n"@;
    let s = xml_of(e);
    assert(s[s.len() - 1] == tail[tail.len() - 1]);
    assert(s[s.len() - 2] == tail[tail.len() - 2]);
    let head = "<event version=\""@;
    assert(header_xml(e)[0] == head[0]);
}

/// The encoding is deterministic: any two encodings of the same event are
/// byte-identical, since each is fully determined by the event value.
pub proof fn lemma_encoding_deterministic(e: Event, r1: String, r2: String)
    requires
        call_ensures(Event::to_xml, (&e,), r1),
        call_ensures(Event::to_xml, (&e,), r2),
    ensures
        r1@ == r2@,
{
}

/// Every well-formed event goes stale exactly [`STALE_WINDOW_SECS`] seconds
/// after it starts, whatever its start time.
pub proof fn lemma_stale_window(e: Event)
    requires
        e.wf(),
    ensures
        e.stale == e.start + STALE_WINDOW_SECS,
        e.time == e.start,
{
}

/// Build the framed CoT message for a finding, stamped with the current
/// system clock. `None` only when the clock reads outside the renderer's
/// range; for every message produced there is a well-formed event, carrying
/// the finding's fields, of which the message is the exact encoding.
pub fn cot_message_now(soi: &RDoASOI) -> (r: Option<String>)
    ensures
        r matches Some(m) ==> exists|e: Event|
            {
                &&& e.wf()
                &&& e.uid@ == soi.uid@
                &&& e.detail.sensor.azimuth == soi.azimuth
                &&& e.detail.sensor.fov == soi.s_fov
                &&& e.detail.sensor.range == soi.s_range
                &&& e.detail.contact.callsign@ == soi.s_contact@
                &&& m@ == #[trigger] xml_of(e)
            },
{
    let now = now_unix_secs();
    if 0 <= now && now <= TS_MAX - STALE_WINDOW_SECS {
        let e = event_from_finding(soi, now);
        let m = e.to_xml();
        proof {
            assert(xml_of(e) == m@);
        }
        Some(m)
    } else {
        None
    }
}

} // verus!
