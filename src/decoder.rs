use vstd::prelude::*;
use vstd::utf8::{decode_utf8, valid_utf8};

use crate::error::{EntsoeError, RequiredField};
use crate::instant::{instant_of, parse_instant, sample_instant, sample_instant_of};
use crate::lexical::{parse_u32, str_equals, trim, trimmed, u32_value};
use crate::price::{
    collate, collated, decimal_value, has_time, resolution_of, Decimal,
    PriceDocument, PricePoint, Resolution,
};
use crate::xml::{error_text, read_events, utf8_text, xml_events_of, XmlEvent};

verus! {

/// Where in the document the decoder stands.
#[derive(Debug, Clone, Copy, PartialEq, Eq, Structural)]
pub enum Context {
    Outside,
    InTimeSeries,
    InPeriod,
    InPoint,
    InTimeInterval,
}

/// The element whose text comes next.
#[derive(Debug, Clone, Copy, PartialEq, Eq, Structural)]
pub enum Field {
    Currency,
    ResolutionCode,
    Start,
    End,
    Position,
    Amount,
    Other,
}

pub open spec fn field_of(name: Seq<char>) -> Field {
    if name == "currency_Unit.name"@ {
        Field::Currency
    } else if name == "resolution"@ {
        Field::ResolutionCode
    } else if name == "start"@ {
        Field::Start
    } else if name == "end"@ {
        Field::End
    } else if name == "position"@ {
        Field::Position
    } else if name == "price.amount"@ {
        Field::Amount
    } else {
        Field::Other
    }
}

/// A point as read: its period's anchor, its 1-based position, its price.
#[derive(Debug, Clone, Copy, PartialEq, Eq, Structural)]
pub struct RawPoint {
    pub anchor: i64,
    pub position: u32,
    pub price: Decimal,
}

/// What the decoder knows after a prefix of the events.
pub struct DecodeModel {
    pub context: Context,
    pub field: Field,
    pub currency: Option<Seq<char>>,
    pub resolution: Option<Resolution>,
    pub period_start: Option<i64>,
    pub period_end: Option<i64>,
    pub anchor: Option<i64>,
    pub position: Option<u32>,
    pub price: Option<Decimal>,
    pub points: Seq<RawPoint>,
}

pub open spec fn initial_model() -> DecodeModel {
    DecodeModel {
        context: Context::Outside,
        field: Field::Other,
        currency: None,
        resolution: None,
        period_start: None,
        period_end: None,
        anchor: None,
        position: None,
        price: None,
        points: Seq::empty(),
    }
}

pub open spec fn in_period(c: Context) -> bool {
    c == Context::InPeriod || c == Context::InPoint || c == Context::InTimeInterval
}

/// The smaller of a running minimum and a new value, if there is one.
pub open spec fn earliest(a: Option<i64>, v: Option<i64>) -> Option<i64> {
    match (a, v) {
        (Some(x), Some(y)) => if y < x {
            Some(y)
        } else {
            Some(x)
        },
        (None, _) => v,
        (_, None) => a,
    }
}

/// The larger of a running maximum and a new value, if there is one.
pub open spec fn latest(a: Option<i64>, v: Option<i64>) -> Option<i64> {
    match (a, v) {
        (Some(x), Some(y)) => if x < y {
            Some(y)
        } else {
            Some(x)
        },
        (None, _) => v,
        (_, None) => a,
    }
}

pub open spec fn on_start(m: DecodeModel, name: Seq<char>) -> DecodeModel {
    let m = DecodeModel { field: field_of(name), ..m };
    if name == "TimeSeries"@ {
        if m.context == Context::Outside {
            DecodeModel { context: Context::InTimeSeries, ..m }
        } else {
            m
        }
    } else if name == "Period"@ {
        if m.context == Context::InTimeSeries {
            DecodeModel { context: Context::InPeriod, anchor: None, ..m }
        } else {
            m
        }
    } else if name == "Point"@ {
        if m.context == Context::InPeriod {
            DecodeModel { context: Context::InPoint, ..m }
        } else {
            m
        }
    } else if name == "timeInterval"@ {
        if m.context == Context::InPeriod {
            DecodeModel { context: Context::InTimeInterval, ..m }
        } else {
            m
        }
    } else {
        m
    }
}

/// The points after a point closes: one more where position, price and
/// anchor are all known.
pub open spec fn closed_points(m: DecodeModel) -> Seq<RawPoint> {
    match (m.position, m.price, m.anchor) {
        (Some(position), Some(price), Some(anchor)) => m.points.push(
            RawPoint { anchor, position, price },
        ),
        _ => m.points,
    }
}

pub open spec fn on_end(m: DecodeModel, name: Seq<char>) -> DecodeModel {
    let m = DecodeModel { field: Field::Other, ..m };
    if name == "TimeSeries"@ {
        DecodeModel { context: Context::Outside, ..m }
    } else if name == "Period"@ {
        if in_period(m.context) {
            DecodeModel { context: Context::InTimeSeries, ..m }
        } else {
            m
        }
    } else if name == "Point"@ {
        DecodeModel {
            context: if m.context == Context::InPoint {
                Context::InPeriod
            } else {
                m.context
            },
            points: closed_points(m),
            position: None,
            price: None,
            ..m
        }
    } else if name == "timeInterval"@ {
        if m.context == Context::InTimeInterval {
            DecodeModel { context: Context::InPeriod, ..m }
        } else {
            m
        }
    } else {
        m
    }
}

/// Takes the trimmed, non-empty text of the current element.
pub open spec fn on_text(m: DecodeModel, t: Seq<u8>) -> DecodeModel {
    match m.field {
        Field::Currency => if m.context != Context::Outside && m.currency is None && valid_utf8(t) {
            DecodeModel { currency: Some(decode_utf8(t)), ..m }
        } else {
            m
        },
        Field::ResolutionCode => if in_period(m.context) && m.resolution is None && valid_utf8(t) {
            DecodeModel { resolution: resolution_of(decode_utf8(t)), ..m }
        } else {
            m
        },
        Field::Start => if m.context == Context::InTimeInterval {
            DecodeModel {
                anchor: instant_of(t),
                period_start: earliest(m.period_start, instant_of(t)),
                ..m
            }
        } else {
            m
        },
        Field::End => if m.context == Context::InTimeInterval {
            DecodeModel { period_end: latest(m.period_end, instant_of(t)), ..m }
        } else {
            m
        },
        Field::Position => if m.context == Context::InPoint {
            DecodeModel { position: u32_value(t), ..m }
        } else {
            m
        },
        Field::Amount => if m.context == Context::InPoint {
            DecodeModel { price: decimal_value(t), ..m }
        } else {
            m
        },
        Field::Other => m,
    }
}

/// The model after one event; `None` where text is not UTF-8.
pub open spec fn step(m: DecodeModel, ev: XmlEvent) -> Option<DecodeModel> {
    match ev {
        XmlEvent::Start(name) => Some(on_start(m, name@)),
        XmlEvent::End(name) => Some(on_end(m, name@)),
        XmlEvent::Text(b) => if !valid_utf8(b@) {
            None
        } else if trimmed(b@).len() == 0 {
            Some(m)
        } else {
            Some(on_text(m, trimmed(b@)))
        },
        _ => Some(m),
    }
}

/// The model after all the events, in order; `None` once one fails.
pub open spec fn fold_events(evs: Seq<XmlEvent>) -> Option<DecodeModel>
    decreases evs.len(),
{
    if evs.len() == 0 {
        Some(initial_model())
    } else {
        match fold_events(evs.drop_last()) {
            Some(m) => step(m, evs.last()),
            None => None,
        }
    }
}

/// The samples of the points, in reading order, each at its instant;
/// points whose instant does not fit are left out.
pub open spec fn samples_of(points: Seq<RawPoint>, resolution: Resolution) -> Seq<PricePoint>
    decreases points.len(),
{
    if points.len() == 0 {
        Seq::empty()
    } else {
        let rest = samples_of(points.drop_last(), resolution);
        let p = points.last();
        match sample_instant_of(p.anchor, p.position, resolution) {
            Some(t) => rest.push(PricePoint { timestamp: t, price: p.price }),
            None => rest,
        }
    }
}

/// `r` is what the decoder owes once all events are in the model `m`.
pub open spec fn finish_agrees(m: DecodeModel, r: Result<PriceDocument, EntsoeError>) -> bool {
    if m.currency is None {
        r == Err::<PriceDocument, EntsoeError>(EntsoeError::MissingField(RequiredField::Currency))
    } else if m.resolution is None {
        r == Err::<PriceDocument, EntsoeError>(EntsoeError::MissingField(RequiredField::Resolution))
    } else if m.period_start is None {
        r == Err::<PriceDocument, EntsoeError>(EntsoeError::MissingField(RequiredField::PeriodStart))
    } else if m.period_end is None {
        r == Err::<PriceDocument, EntsoeError>(EntsoeError::MissingField(RequiredField::PeriodEnd))
    } else if samples_of(m.points, m.resolution->0).len() == 0 {
        r == Err::<PriceDocument, EntsoeError>(EntsoeError::EmptyResult)
    } else {
        &&& r is Ok
        &&& r->Ok_0.currency@ == m.currency->0
        &&& r->Ok_0.resolution == m.resolution->0
        &&& r->Ok_0.period_start == m.period_start->0
        &&& r->Ok_0.period_end == m.period_end->0
        &&& collated(samples_of(m.points, m.resolution->0), r->Ok_0.prices@)
    }
}

/// `r` is what decoding the events owes.
pub open spec fn decode_agrees(evs: Seq<XmlEvent>, r: Result<PriceDocument, EntsoeError>) -> bool {
    match fold_events(evs) {
        None => r matches Err(EntsoeError::SyntaxError(_)),
        Some(m) => finish_agrees(m, r),
    }
}

/// The fold state that the decoder threads through the events.
pub struct DecoderState {
    pub context: Context,
    pub field: Field,
    pub currency: Option<String>,
    pub resolution: Option<Resolution>,
    pub period_start: Option<i64>,
    pub period_end: Option<i64>,
    pub anchor: Option<i64>,
    pub position: Option<u32>,
    pub price: Option<Decimal>,
    pub points: Vec<RawPoint>,
}

impl View for DecoderState {
    type V = DecodeModel;

    open spec fn view(&self) -> DecodeModel {
        DecodeModel {
            context: self.context,
            field: self.field,
            currency: match self.currency {
                Some(s) => Some(s@),
                None => None,
            },
            resolution: self.resolution,
            period_start: self.period_start,
            period_end: self.period_end,
            anchor: self.anchor,
            position: self.position,
            price: self.price,
            points: self.points@,
        }
    }
}

/// The field that an element's name announces.
pub fn classify(name: &str) -> (r: Field)
    ensures
        r == field_of(name@),
{
    if str_equals(name, "currency_Unit.name") {
        Field::Currency
    } else if str_equals(name, "resolution") {
        Field::ResolutionCode
    } else if str_equals(name, "start") {
        Field::Start
    } else if str_equals(name, "end") {
        Field::End
    } else if str_equals(name, "position") {
        Field::Position
    } else if str_equals(name, "price.amount") {
        Field::Amount
    } else {
        Field::Other
    }
}

fn earliest_of(a: Option<i64>, v: Option<i64>) -> (r: Option<i64>)
    ensures
        r == earliest(a, v),
{
    match (a, v) {
        (Some(x), Some(y)) => if y < x {
            Some(y)
        } else {
            Some(x)
        },
        (None, _) => v,
        (_, None) => a,
    }
}

fn latest_of(a: Option<i64>, v: Option<i64>) -> (r: Option<i64>)
    ensures
        r == latest(a, v),
{
    match (a, v) {
        (Some(x), Some(y)) => if x < y {
            Some(y)
        } else {
            Some(x)
        },
        (None, _) => v,
        (_, None) => a,
    }
}

impl DecoderState {
    pub fn new() -> (r: DecoderState)
        ensures
            r@ == initial_model(),
    {
        let r = DecoderState {
            context: Context::Outside,
            field: Field::Other,
            currency: None,
            resolution: None,
            period_start: None,
            period_end: None,
            anchor: None,
            position: None,
            price: None,
            points: Vec::new(),
        };
        assert(r@.points =~= Seq::<RawPoint>::empty());
        r
    }

    fn open_element(&mut self, name: &str)
        ensures
            final(self)@ == on_start(old(self)@, name@),
    {
        self.field = classify(name);
        if str_equals(name, "TimeSeries") {
            if self.context == Context::Outside {
                self.context = Context::InTimeSeries;
            }
        } else if str_equals(name, "Period") {
            if self.context == Context::InTimeSeries {
                self.context = Context::InPeriod;
                self.anchor = None;
            }
        } else if str_equals(name, "Point") {
            if self.context == Context::InPeriod {
                self.context = Context::InPoint;
            }
        } else if str_equals(name, "timeInterval") {
            if self.context == Context::InPeriod {
                self.context = Context::InTimeInterval;
            }
        }
    }

    fn close_element(&mut self, name: &str)
        ensures
            final(self)@ == on_end(old(self)@, name@),
    {
        self.field = Field::Other;
        if str_equals(name, "TimeSeries") {
            self.context = Context::Outside;
        } else if str_equals(name, "Period") {
            if self.context == Context::InPeriod || self.context == Context::InPoint
                || self.context == Context::InTimeInterval {
                self.context = Context::InTimeSeries;
            }
        } else if str_equals(name, "Point") {
            if let (Some(position), Some(price), Some(anchor)) = (self.position, self.price, self.anchor) {
                self.points.push(RawPoint { anchor, position, price });
            }
            self.position = None;
            self.price = None;
            if self.context == Context::InPoint {
                self.context = Context::InPeriod;
            }
        } else if str_equals(name, "timeInterval") {
            if self.context == Context::InTimeInterval {
                self.context = Context::InPeriod;
            }
        }
    }

    fn take_text(&mut self, t: &Vec<u8>)
        ensures
            final(self)@ == on_text(old(self)@, t@),
    {
        match self.field {
            Field::Currency => {
                if self.context != Context::Outside && self.currency.is_none() {
                    if let Some(s) = utf8_text(t.as_slice()) {
                        self.currency = Some(s);
                    }
                }
            },
            Field::ResolutionCode => {
                if (self.context == Context::InPeriod || self.context == Context::InPoint
                    || self.context == Context::InTimeInterval) && self.resolution.is_none() {
                    if let Some(s) = utf8_text(t.as_slice()) {
                        self.resolution = Resolution::parse(s.as_str());
                    }
                }
            },
            Field::Start => {
                if self.context == Context::InTimeInterval {
                    let v = parse_instant(t.as_slice());
                    self.anchor = v;
                    self.period_start = earliest_of(self.period_start, v);
                }
            },
            Field::End => {
                if self.context == Context::InTimeInterval {
                    let v = parse_instant(t.as_slice());
                    self.period_end = latest_of(self.period_end, v);
                }
            },
            Field::Position => {
                if self.context == Context::InPoint {
                    self.position = parse_u32(t.as_slice());
                }
            },
            Field::Amount => {
                if self.context == Context::InPoint {
                    self.price = Decimal::parse(t.as_slice());
                }
            },
            Field::Other => {},
        }
    }

    /// Takes one event. Returns `false`, and says nothing of the state, where
    /// the event is text that is not UTF-8.
    pub fn apply(&mut self, ev: &XmlEvent) -> (ok: bool)
        ensures
            ok == step(old(self)@, *ev) is Some,
            ok ==> final(self)@ == step(old(self)@, *ev)->0,
    {
        match ev {
            XmlEvent::Start(name) => {
                self.open_element(name.as_str());
                true
            },
            XmlEvent::End(name) => {
                self.close_element(name.as_str());
                true
            },
            XmlEvent::Text(b) => {
                if utf8_text(b.as_slice()).is_none() {
                    return false;
                }
                let t = trim(b.as_slice());
                if t.len() > 0 {
                    self.take_text(&t);
                }
                true
            },
            _ => true,
        }
    }
}

/// Collation keeps at least one sample of a non-empty list.
pub proof fn lemma_collated_nonempty(s: Seq<PricePoint>, r: Seq<PricePoint>)
    requires
        collated(s, r),
        s.len() > 0,
    ensures
        r.len() > 0,
{
    assert(has_time(r, s[0].timestamp));
}

/// Every document that decoding yields has its samples in strictly rising
/// time order, with no timestamp twice, and at least one sample.
pub proof fn lemma_decoded_prices_ascend(evs: Seq<XmlEvent>, r: Result<PriceDocument, EntsoeError>)
    requires
        decode_agrees(evs, r),
        r is Ok,
    ensures
        r->Ok_0.wf(),
{
    let m = fold_events(evs)->0;
    lemma_collated_nonempty(samples_of(m.points, m.resolution->0), r->Ok_0.prices@);
}

/// A failed event fails every longer stream.
proof fn lemma_fold_stays_failed(evs: Seq<XmlEvent>, i: int)
    requires
        0 <= i <= evs.len(),
        fold_events(evs.take(i)) is None,
    ensures
        fold_events(evs) is None,
    decreases evs.len() - i,
{
    if i < evs.len() {
        assert(evs.take(i + 1).drop_last() =~= evs.take(i));
        lemma_fold_stays_failed(evs, i + 1);
    } else {
        assert(evs.take(i) =~= evs);
    }
}

impl DecoderState {
    /// Ends the scan: the document, or the first summary field missing, or
    /// `EmptyResult` where no sample is left.
    pub fn finish(self) -> (r: Result<PriceDocument, EntsoeError>)
        ensures
            finish_agrees(self@, r),
    {
        let ghost m = self@;
        let currency = match self.currency {
            Some(c) => c,
            None => return Err(EntsoeError::MissingField(RequiredField::Currency)),
        };
        let resolution = match self.resolution {
            Some(v) => v,
            None => return Err(EntsoeError::MissingField(RequiredField::Resolution)),
        };
        let period_start = match self.period_start {
            Some(v) => v,
            None => return Err(EntsoeError::MissingField(RequiredField::PeriodStart)),
        };
        let period_end = match self.period_end {
            Some(v) => v,
            None => return Err(EntsoeError::MissingField(RequiredField::PeriodEnd)),
        };
        let points = self.points;
        let mut samples: Vec<PricePoint> = Vec::new();
        let mut i: usize = 0;
        assert(points@.take(0) =~= Seq::<RawPoint>::empty());
        while i < points.len()
            invariant
                i <= points@.len(),
                samples@ == samples_of(points@.take(i as int), resolution),
            decreases points@.len() - i,
        {
            let p = points[i];
            assert(points@.take(i + 1).drop_last() =~= points@.take(i as int));
            if let Some(t) = sample_instant(p.anchor, p.position, resolution) {
                samples.push(PricePoint { timestamp: t, price: p.price });
            }
            i += 1;
        }
        assert(points@.take(points@.len() as int) =~= points@);
        if samples.len() == 0 {
            return Err(EntsoeError::EmptyResult);
        }
        let prices = collate(&samples);
        Ok(PriceDocument { currency, resolution, period_start, period_end, prices })
    }
}

/// Decodes a stream of events, in order, up to its end.
pub fn decode_events(events: &Vec<XmlEvent>) -> (r: Result<PriceDocument, EntsoeError>)
    ensures
        decode_agrees(events@, r),
        r is Ok ==> r->Ok_0.wf(),
{
    let mut st = DecoderState::new();
    let mut i: usize = 0;
    assert(events@.take(0) =~= Seq::<XmlEvent>::empty());
    while i < events.len()
        invariant
            i <= events@.len(),
            fold_events(events@.take(i as int)) == Some(st@),
        decreases events@.len() - i,
    {
        assert(events@.take(i + 1).drop_last() =~= events@.take(i as int));
        if !st.apply(&events[i]) {
            proof {
                lemma_fold_stays_failed(events@, i + 1);
            }
            return Err(EntsoeError::SyntaxError("text is not UTF-8".to_owned()));
        }
        i += 1;
    }
    assert(events@.take(events@.len() as int) =~= events@);
    let r = st.finish();
    proof {
        if r is Ok {
            lemma_decoded_prices_ascend(events@, r);
        }
    }
    r
}

/// Decodes a day-ahead price publication from its bytes: a `SyntaxError`
/// with quick_xml's diagnostic where the bytes are malformed, else what
/// decoding their events gives.
pub fn parse_day_ahead_prices(xml: &[u8]) -> (r: Result<PriceDocument, EntsoeError>)
    ensures
        match xml_events_of(xml@) {
            Some(evs) => decode_agrees(evs, r),
            None => r matches Err(EntsoeError::SyntaxError(_)),
        },
        r is Ok ==> r->Ok_0.wf(),
{
    match read_events(xml) {
        Ok(events) => decode_events(&events),
        Err(e) => Err(EntsoeError::SyntaxError(error_text(&e))),
    }
}

} // verus!
