use nmea::Nmea;
use vstd::prelude::*;

verus! {

/// Most entries the message history keeps.
pub const HISTORY_CAPACITY: usize = 100;

/// Position and status values of a receiver, each `None` until known.
///
/// The same shape serves two purposes: the fields that one sentence carries
/// (`Some` exactly where the sentence has the field) and the running snapshot
/// that those sentences are folded into. Numbers, dates and times are kept in
/// the decoder's own text form; satellites as one descriptor line each.
pub struct Telemetry {
    pub fix_date: Option<String>,
    pub fix_time: Option<String>,
    pub latitude: Option<String>,
    pub longitude: Option<String>,
    pub altitude: Option<String>,
    pub hdop: Option<String>,
    pub vdop: Option<String>,
    pub pdop: Option<String>,
    pub num_of_fix_satellites: Option<u32>,
    pub satellites: Option<Vec<String>>,
}

pub ghost struct TelemetryView {
    pub fix_date: Option<Seq<char>>,
    pub fix_time: Option<Seq<char>>,
    pub latitude: Option<Seq<char>>,
    pub longitude: Option<Seq<char>>,
    pub altitude: Option<Seq<char>>,
    pub hdop: Option<Seq<char>>,
    pub vdop: Option<Seq<char>>,
    pub pdop: Option<Seq<char>>,
    pub num_of_fix_satellites: Option<u32>,
    pub satellites: Option<Seq<Seq<char>>>,
}

pub open spec fn text_view(o: Option<String>) -> Option<Seq<char>> {
    match o {
        Some(s) => Some(s@),
        None => None,
    }
}

pub open spec fn lines_view(o: Option<Vec<String>>) -> Option<Seq<Seq<char>>> {
    match o {
        Some(v) => Some(v@.map_values(|s: String| s@)),
        None => None,
    }
}

impl View for Telemetry {
    type V = TelemetryView;

    open spec fn view(&self) -> TelemetryView {
        TelemetryView {
            fix_date: text_view(self.fix_date),
            fix_time: text_view(self.fix_time),
            latitude: text_view(self.latitude),
            longitude: text_view(self.longitude),
            altitude: text_view(self.altitude),
            hdop: text_view(self.hdop),
            vdop: text_view(self.vdop),
            pdop: text_view(self.pdop),
            num_of_fix_satellites: self.num_of_fix_satellites,
            satellites: lines_view(self.satellites),
        }
    }
}

/// The value a field holds after a fold: the new one where it is supplied.
pub open spec fn pick<T>(new: Option<T>, old: Option<T>) -> Option<T> {
    if new is Some {
        new
    } else {
        old
    }
}

/// `old` with every field that `new` supplies replaced by `new`'s value.
pub open spec fn merged(old: TelemetryView, new: TelemetryView) -> TelemetryView {
    TelemetryView {
        fix_date: pick(new.fix_date, old.fix_date),
        fix_time: pick(new.fix_time, old.fix_time),
        latitude: pick(new.latitude, old.latitude),
        longitude: pick(new.longitude, old.longitude),
        altitude: pick(new.altitude, old.altitude),
        hdop: pick(new.hdop, old.hdop),
        vdop: pick(new.vdop, old.vdop),
        pdop: pick(new.pdop, old.pdop),
        num_of_fix_satellites: pick(new.num_of_fix_satellites, old.num_of_fix_satellites),
        satellites: pick(new.satellites, old.satellites),
    }
}

/// Every field unknown.
pub open spec fn unknown() -> TelemetryView {
    TelemetryView {
        fix_date: None,
        fix_time: None,
        latitude: None,
        longitude: None,
        altitude: None,
        hdop: None,
        vdop: None,
        pdop: None,
        num_of_fix_satellites: None,
        satellites: None,
    }
}

fn fold_field<T>(cur: &mut Option<T>, new: Option<T>)
    ensures
        *final(cur) == pick(new, *old(cur)),
{
    if new.is_some() {
        *cur = new;
    }
}

impl Telemetry {
    /// A snapshot in which nothing is known yet.
    pub fn new() -> (r: Telemetry)
        ensures
            r@ == unknown(),
    {
        Telemetry {
            fix_date: None,
            fix_time: None,
            latitude: None,
            longitude: None,
            altitude: None,
            hdop: None,
            vdop: None,
            pdop: None,
            num_of_fix_satellites: None,
            satellites: None,
        }
    }

    /// Replaces the list of satellites in view.
    pub fn set_satellites(&mut self, sky: Vec<String>)
        ensures
            final(self)@ == (TelemetryView { satellites: Some(sky@.map_values(|s: String| s@)), ..old(self)@ }),
    {
        self.satellites = Some(sky);
    }

    /// Folds the fields of one sentence into this snapshot: a supplied field
    /// overwrites, an absent one leaves the known value alone.
    pub fn merge(&mut self, new: Telemetry)
        ensures
            final(self)@ == merged(old(self)@, new@),
    {
        let Telemetry {
            fix_date,
            fix_time,
            latitude,
            longitude,
            altitude,
            hdop,
            vdop,
            pdop,
            num_of_fix_satellites,
            satellites,
        } = new;
        fold_field(&mut self.fix_date, fix_date);
        fold_field(&mut self.fix_time, fix_time);
        fold_field(&mut self.latitude, latitude);
        fold_field(&mut self.longitude, longitude);
        fold_field(&mut self.altitude, altitude);
        fold_field(&mut self.hdop, hdop);
        fold_field(&mut self.vdop, vdop);
        fold_field(&mut self.pdop, pdop);
        fold_field(&mut self.num_of_fix_satellites, num_of_fix_satellites);
        fold_field(&mut self.satellites, satellites);
    }
}

/// One line of the message history: when it was received, and its text.
pub struct Entry {
    pub stamp: String,
    pub text: String,
}

pub ghost struct EntryView {
    pub stamp: Seq<char>,
    pub text: Seq<char>,
}

impl View for Entry {
    type V = EntryView;

    open spec fn view(&self) -> EntryView {
        EntryView { stamp: self.stamp@, text: self.text@ }
    }
}

/// `h` with `e` put in front and the oldest entries beyond the capacity dropped.
pub open spec fn pushed_front(h: Seq<EntryView>, e: EntryView) -> Seq<EntryView> {
    let all = seq![e] + h;
    if all.len() > HISTORY_CAPACITY {
        all.take(HISTORY_CAPACITY as int)
    } else {
        all
    }
}

/// `h` after the entries `es` were put in front of it, one at a time in order.
pub open spec fn pushed_all(h: Seq<EntryView>, es: Seq<EntryView>) -> Seq<EntryView>
    decreases es.len(),
{
    if es.len() == 0 {
        h
    } else {
        pushed_front(pushed_all(h, es.drop_last()), es.last())
    }
}

/// The smaller of two integers.
pub open spec fn min_int(a: int, b: int) -> int {
    if a <= b {
        a
    } else {
        b
    }
}

/// However many entries arrive, the history never holds more than its
/// capacity: it holds the newest entries, newest first, then as much of what
/// it held before as still fits. The newest entry is always the first.
pub proof fn lemma_history_keeps_newest(h: Seq<EntryView>, es: Seq<EntryView>)
    requires
        h.len() <= HISTORY_CAPACITY,
    ensures
        pushed_all(h, es) == (es.reverse() + h).take(
            min_int(HISTORY_CAPACITY as int, (es.len() + h.len()) as int),
        ),
        pushed_all(h, es).len() <= HISTORY_CAPACITY,
        es.len() > 0 ==> pushed_all(h, es)[0] == es.last(),
    decreases es.len(),
{
    if es.len() == 0 {
        assert(es.reverse() + h =~= h);
        assert(h.take(h.len() as int) =~= h);
    } else {
        let dl = es.drop_last();
        lemma_history_keeps_newest(h, dl);
        let a = dl.reverse() + h;
        assert(es.reverse() =~= seq![es.last()] + dl.reverse());
        assert(es.reverse() + h =~= seq![es.last()] + a);
        let m1 = min_int(HISTORY_CAPACITY as int, a.len() as int);
        let p = a.take(m1);
        assert(seq![es.last()] + p =~= (seq![es.last()] + a).take(m1 + 1));
        let all = seq![es.last()] + p;
        if all.len() > HISTORY_CAPACITY {
            assert(all.take(HISTORY_CAPACITY as int) =~= (seq![es.last()] + a).take(
                HISTORY_CAPACITY as int,
            ));
        }
    }
}

/// From an empty history, once at least the capacity of entries has arrived,
/// the history holds exactly the capacity newest of them, newest first.
pub proof fn lemma_full_history_is_newest(es: Seq<EntryView>)
    requires
        es.len() >= HISTORY_CAPACITY,
    ensures
        pushed_all(Seq::empty(), es).len() == HISTORY_CAPACITY,
        forall|i: int|
            0 <= i < HISTORY_CAPACITY ==> #[trigger] pushed_all(Seq::empty(), es)[i] == es[es.len() - 1
                - i],
{
    lemma_history_keeps_newest(Seq::empty(), es);
    assert(es.reverse() + Seq::<EntryView>::empty() =~= es.reverse());
}

/// The lines among `lines` that the decoder accepts, in order.
pub open spec fn accepted_lines(lines: Seq<Seq<char>>) -> Seq<Seq<char>>
    decreases lines.len(),
{
    if lines.len() == 0 {
        Seq::empty()
    } else if parsed_fields(lines.last()) is Some {
        accepted_lines(lines.drop_last()).push(lines.last())
    } else {
        accepted_lines(lines.drop_last())
    }
}

/// Folding keeps exactly the supplied fields of the newer record and every
/// other field of the older one.
pub proof fn lemma_fold_supplied_fields(old: TelemetryView, new: TelemetryView)
    ensures
        new.fix_date is Some ==> merged(old, new).fix_date == new.fix_date,
        new.fix_date is None ==> merged(old, new).fix_date == old.fix_date,
        new.fix_time is Some ==> merged(old, new).fix_time == new.fix_time,
        new.fix_time is None ==> merged(old, new).fix_time == old.fix_time,
        new.latitude is Some ==> merged(old, new).latitude == new.latitude,
        new.latitude is None ==> merged(old, new).latitude == old.latitude,
        new.longitude is Some ==> merged(old, new).longitude == new.longitude,
        new.longitude is None ==> merged(old, new).longitude == old.longitude,
        new.altitude is Some ==> merged(old, new).altitude == new.altitude,
        new.altitude is None ==> merged(old, new).altitude == old.altitude,
        new.hdop is Some ==> merged(old, new).hdop == new.hdop,
        new.hdop is None ==> merged(old, new).hdop == old.hdop,
        new.vdop is Some ==> merged(old, new).vdop == new.vdop,
        new.vdop is None ==> merged(old, new).vdop == old.vdop,
        new.pdop is Some ==> merged(old, new).pdop == new.pdop,
        new.pdop is None ==> merged(old, new).pdop == old.pdop,
        new.num_of_fix_satellites is Some ==> merged(old, new).num_of_fix_satellites
            == new.num_of_fix_satellites,
        new.num_of_fix_satellites is None ==> merged(old, new).num_of_fix_satellites
            == old.num_of_fix_satellites,
        new.satellites is Some ==> merged(old, new).satellites == new.satellites,
        new.satellites is None ==> merged(old, new).satellites == old.satellites,
        merged(merged(old, new), new) == merged(old, new),
{
}

/// The fields that one line supplies, satellites aside, or `None` where the
/// decoder rejects the line.
pub uninterp spec fn parsed_fields(line: Seq<char>) -> Option<TelemetryView>;

/// For a GSV sentence, its pack number (its second field) and the descriptor
/// line of the satellite in its first slot, where that slot is filled; `None`
/// for any other line.
pub uninterp spec fn gsv_of(line: Seq<char>) -> Option<(u16, Option<Seq<char>>)>;

/// The satellites that a decoder has gathered from the GSV sentences fed to
/// it, one descriptor line each.
pub uninterp spec fn satellites_in_view(decoder: Nmea) -> Seq<Seq<char>>;

/// The highest GSV pack number that is handed to the shared decoder: it keeps
/// at most fifteen packs per constellation and fails on a pack beyond that.
pub const MAX_GSV_PACK: u16 = 14;

/// The most satellites that the decoder lists at once.
pub const MAX_SATELLITES: usize = 58;

/// The most satellites that one GSV sentence carries.
pub const GSV_SLOTS: usize = 4;

/// Whether a line is a GSV sentence that the decoder may take.
pub open spec fn tracks_satellites(line: Seq<char>) -> bool {
    gsv_of(line) is Some && gsv_of(line).unwrap().0 <= MAX_GSV_PACK
}

/// Whether a decoder listing `count` satellites still has room for the
/// satellites of one more GSV sentence.
pub open spec fn sky_has_room(count: int) -> bool {
    count + GSV_SLOTS <= MAX_SATELLITES
}

/// Whether a line updates the satellites in view, where the decoder lists
/// `count` of them: a GSV sentence that it may take, while it has room.
pub open spec fn takes_satellites(line: Seq<char>, count: int) -> bool {
    tracks_satellites(line) && sky_has_room(count)
}

/// `t` with the satellites in view, where they were updated.
pub open spec fn with_satellites(t: TelemetryView, update: bool, sky: Seq<Seq<char>>) -> TelemetryView {
    if update {
        TelemetryView { satellites: Some(sky), ..t }
    } else {
        t
    }
}

/// Unicode's White_Space characters, those that `char::is_whitespace` accepts.
pub open spec fn is_white(c: char) -> bool {
    let v = c as u32;
    (9 <= v && v <= 13) || v == 32 || v == 0x85 || v == 0xA0 || v == 0x1680 || (0x2000 <= v
        && v <= 0x200A) || v == 0x2028 || v == 0x2029 || v == 0x202F || v == 0x205F || v == 0x3000
}

/// `t` is `s` without its leading and trailing white space.
pub open spec fn is_trim_of(t: Seq<char>, s: Seq<char>) -> bool {
    exists|i: int, j: int|
        0 <= i <= j <= s.len() && t == s.subrange(i, j) && (forall|k: int|
            0 <= k < i ==> is_white(#[trigger] s[k])) && (forall|k: int|
            j <= k < s.len() ==> is_white(#[trigger] s[k])) && (t.len() > 0 ==> !is_white(t[0])
            && !is_white(t[t.len() - 1]))
}

#[verifier::external_type_specification]
#[verifier::external_body]
pub struct ExNmea(Nmea);

/// Relies on nmea's `Nmea::parse`, run on a fresh `Nmea`: it accepts a
/// well-formed sentence with a matching checksum of a kind that it folds, and
/// then holds exactly the fields that the sentence carries. Values are turned
/// into text by their `Display`. The outcome depends on the line alone.
#[verifier::external_body]
fn parse_sentence(line: &str) -> (r: Option<Telemetry>)
    ensures
        r is Some <==> parsed_fields(line@) is Some,
        r is Some ==> r.unwrap()@ == parsed_fields(line@).unwrap(),
        r is Some ==> line@.len() > 0 && line@[0] == '$',
{
    let mut n = Nmea::default();
    n.parse(line).ok()?;
    Some(Telemetry {
        fix_date: n.fix_date.as_ref().map(ToString::to_string),
        fix_time: n.fix_time.as_ref().map(ToString::to_string),
        latitude: n.latitude.as_ref().map(ToString::to_string),
        longitude: n.longitude.as_ref().map(ToString::to_string),
        altitude: n.altitude.as_ref().map(ToString::to_string),
        hdop: n.hdop.as_ref().map(ToString::to_string),
        vdop: n.vdop.as_ref().map(ToString::to_string),
        pdop: n.pdop.as_ref().map(ToString::to_string),
        num_of_fix_satellites: n.num_of_fix_satellites,
        satellites: None,
    })
}

/// Relies on nmea's `parse_str`: the `sentence_num` of a GSV sentence and
/// its first satellite slot, which depend on the line alone.
#[verifier::external_body]
fn gsv_header(line: &str) -> (r: Option<(u16, Option<String>)>)
    ensures
        r is Some <==> gsv_of(line@) is Some,
        r is Some ==> r.unwrap().0 == gsv_of(line@).unwrap().0
            && text_view(r.unwrap().1) == gsv_of(line@).unwrap().1,
{
    match nmea::parse_str(line) {
        Ok(nmea::ParseResult::GSV(d)) => Some((d.sentence_num, d.sats_info.first().and_then(|s| s.as_ref()).map(ToString::to_string))),
        _ => None,
    }
}

/// Relies on nmea's `Nmea::default`: a decoder that has gathered nothing.
#[verifier::external_body]
fn new_decoder() -> (r: Nmea)
    ensures
        satellites_in_view(r).len() == 0,
{
    Nmea::default()
}

/// Relies on nmea's `Nmea::parse` and `Nmea::satellites`: the line is folded
/// into the decoder's satellite packs, and all satellites it then holds are
/// listed, one per constellation and number, the newest pack first.
/// - A GSV pack number above `MAX_GSV_PACK` is left out: the decoder keeps
///   fifteen packs per constellation and panics when a sixteenth comes.
/// - The list holds `MAX_SATELLITES` at most and panics beyond: a sentence
///   adds at most `GSV_SLOTS` new ones, so the caller leaves room for them.
/// - A pack numbered 1 or more is kept, so its first satellite is listed.
#[verifier::external_body]
fn track_satellites(decoder: &mut Nmea, line: &str) -> (r: Vec<String>)
    requires
        tracks_satellites(line@),
        sky_has_room(satellites_in_view(*old(decoder)).len() as int),
    ensures
        r@.map_values(|s: String| s@) == satellites_in_view(*final(decoder)),
        gsv_of(line@).unwrap().0 >= 1 && gsv_of(line@).unwrap().1 is Some
            ==> satellites_in_view(*final(decoder)).contains(gsv_of(line@).unwrap().1.unwrap()),
{
    let _ = decoder.parse(line);
    decoder.satellites().iter().map(ToString::to_string).collect()
}

/// A line that starts with `$` keeps it in front when trimmed: every text that
/// enters the history starts with `$`, so a line that does not, once trimmed,
/// never appears there.
pub proof fn lemma_trimmed_sentence_starts_with_dollar(t: Seq<char>, line: Seq<char>)
    requires
        line.len() > 0,
        line[0] == '$',
        is_trim_of(t, line),
    ensures
        t.len() > 0,
        t[0] == '$',
{
    let (i, j) = choose|i: int, j: int|
        0 <= i <= j <= line.len() && t == line.subrange(i, j) && (forall|k: int|
            0 <= k < i ==> is_white(#[trigger] line[k])) && (forall|k: int|
            j <= k < line.len() ==> is_white(#[trigger] line[k])) && (t.len() > 0 ==> !is_white(
            t[0],
        ) && !is_white(t[t.len() - 1]));
    assert(!is_white(line[0]));
    if i > 0 {
        assert(is_white(line[0]));
    }
    if j == 0 {
        assert(is_white(line[0]));
    }
    assert(t[0] == line[0]);
}

/// Relies on `str::trim`: the line with leading and trailing White_Space
/// removed.
#[verifier::external_body]
fn trim_line(line: &str) -> (r: String)
    ensures
        is_trim_of(r@, line@),
{
    line.trim().to_string()
}

/// Relies on `SystemTime::now` and chrono's `DateTime::from_timestamp` and
/// `to_rfc3339_opts`: the time of the call in UTC, to the second, or `None`
/// where the clock reads before 1970 or beyond chrono's range. The stamp is
/// in UTC because chrono's conversion to the local zone panics where the
/// zone data cannot place the time.
#[verifier::external_body]
fn now_stamp() -> (r: Option<String>)
    ensures
        r is Some ==> r.unwrap()@.len() > 0,
{
    let d = std::time::SystemTime::now().duration_since(std::time::UNIX_EPOCH).ok()?;
    let t = chrono::DateTime::from_timestamp(i64::try_from(d.as_secs()).ok()?, d.subsec_nanos())?;
    Some(t.to_rfc3339_opts(chrono::SecondsFormat::Secs, true))
}

/// The stamp of an entry received while the clock could not be read.
pub const NO_STAMP: &'static str = "----";

/// The monitor's state: the running snapshot and the newest-first history of
/// accepted lines.
pub struct Aggregator {
    snapshot: Telemetry,
    history: Vec<Entry>,
    decoder: Nmea,
    sky_len: usize,
}

impl Aggregator {
    /// The snapshot.
    pub closed spec fn snapshot_view(&self) -> TelemetryView {
        self.snapshot@
    }

    /// The decoder that gathers the satellites in view.
    pub closed spec fn decoder_view(&self) -> Nmea {
        self.decoder
    }

    /// The history, newest first.
    pub closed spec fn history_view(&self) -> Seq<EntryView> {
        self.history@.map_values(|e: Entry| e@)
    }

    /// The history never holds more than its capacity.
    pub closed spec fn wf(&self) -> bool {
        &&& self.history@.len() <= HISTORY_CAPACITY
        &&& self.sky_len == satellites_in_view(self.decoder).len()
    }

    /// Nothing known and an empty history.
    pub fn new() -> (r: Aggregator)
        ensures
            r.wf(),
            r.snapshot_view() == unknown(),
            r.history_view().len() == 0,
            satellites_in_view(r.decoder_view()).len() == 0,
    {
        Aggregator { snapshot: Telemetry::new(), history: Vec::new(), decoder: new_decoder(), sky_len: 0 }
    }

    /// What is known now.
    pub fn snapshot(&self) -> (r: &Telemetry)
        ensures
            r@ == self.snapshot_view(),
    {
        &self.snapshot
    }

    /// The accepted lines, newest first.
    pub fn history(&self) -> (r: &Vec<Entry>)
        ensures
            r@.map_values(|e: Entry| e@) == self.history_view(),
    {
        &self.history
    }

    /// Folds the fields of one accepted sentence into the snapshot and puts
    /// its history entry in front, dropping the oldest beyond the capacity.
    pub fn apply(&mut self, fields: Telemetry, entry: Entry)
        requires
            old(self).wf(),
        ensures
            final(self).wf(),
            final(self).history_view().len() <= HISTORY_CAPACITY,
            final(self).snapshot_view() == merged(old(self).snapshot_view(), fields@),
            final(self).history_view() == pushed_front(old(self).history_view(), entry@),
            final(self).decoder_view() == old(self).decoder_view(),
    {
        self.snapshot.merge(fields);
        let ghost s = self.snapshot@;
        let ghost d = self.decoder;
        let ghost n = self.sky_len;
        let ghost e = entry@;
        let ghost h = self.history_view();
        self.history.insert(0, entry);
        assert(self.history_view() =~= seq![e] + h);
        while self.history.len() > HISTORY_CAPACITY
            invariant
                self.snapshot@ == s,
                self.decoder == d,
                self.sky_len == n,
                self.history@.len() <= HISTORY_CAPACITY + 1,
                self.history@.len() >= HISTORY_CAPACITY || self.history@.len() == h.len() + 1,
                self.history_view() == (seq![e] + h).take(self.history@.len() as int),
                (seq![e] + h).len() >= self.history@.len(),
            decreases self.history@.len(),
        {
            self.history.pop();
            assert(self.history_view() =~= (seq![e] + h).take(self.history@.len() as int));
        }
        assert(self.history_view() =~= pushed_front(h, e));
    }

    /// Decodes one line and, where the decoder accepts it, folds it in with
    /// the time of receipt and its trimmed text; a GSV line also updates the
    /// satellites in view, gathered over all GSV lines so far. A rejected line
    /// changes nothing.
    pub fn ingest(&mut self, line: &str) -> (applied: bool)
        requires
            old(self).wf(),
        ensures
            final(self).wf(),
            final(self).history_view().len() <= HISTORY_CAPACITY,
            applied <==> parsed_fields(line@) is Some,
            !applied ==> final(self).snapshot_view() == old(self).snapshot_view()
                && final(self).history_view() == old(self).history_view()
                && final(self).decoder_view() == old(self).decoder_view(),
            applied && !takes_satellites(line@, satellites_in_view(old(self).decoder_view()).len() as int)
                ==> final(self).decoder_view() == old(self).decoder_view(),
            applied ==> final(self).snapshot_view() == merged(
                old(self).snapshot_view(),
                with_satellites(
                    parsed_fields(line@).unwrap(),
                    takes_satellites(line@, satellites_in_view(old(self).decoder_view()).len() as int),
                    satellites_in_view(final(self).decoder_view()),
                ),
            ),
            applied && takes_satellites(line@, satellites_in_view(old(self).decoder_view()).len() as int)
                && gsv_of(line@).unwrap().0 >= 1 && gsv_of(line@).unwrap().1 is Some
                ==> final(self).snapshot_view().satellites.unwrap().contains(gsv_of(line@).unwrap().1.unwrap()),
            applied ==> line@.len() > 0 && line@[0] == '$',
            applied ==> final(self).history_view()[0].text.len() > 0
                && final(self).history_view()[0].text[0] == '$',
            applied ==> final(self).history_view()[0].stamp.len() > 0,
            applied ==> exists|e: EntryView|
                is_trim_of(e.text, line@) && #[trigger] final(self).history_view() == pushed_front(
                    old(self).history_view(),
                    e,
                ),
    {
        match parse_sentence(line) {
            Some(mut fields) => {
                match gsv_header(line) {
                    Some((pack, _)) => {
                        if pack <= MAX_GSV_PACK && self.sky_len <= MAX_SATELLITES - GSV_SLOTS {
                            let sky = track_satellites(&mut self.decoder, line);
                            self.sky_len = sky.len();
                            fields.set_satellites(sky);
                        }
                    },
                    None => {},
                }
                let text = trim_line(line);
                let stamp = match now_stamp() {
                    Some(s) => s,
                    None => NO_STAMP.to_owned(),
                };
                proof {
                    reveal_strlit("----");
                    lemma_trimmed_sentence_starts_with_dollar(text@, line@);
                }
                let entry = Entry { stamp, text };
                let ghost ev = entry@;
                self.apply(fields, entry);
                assert(final(self).history_view() == pushed_front(old(self).history_view(), ev));
                true
            },
            None => false,
        }
    }

    /// Ingests, in order, the lines that arrived since the last round of the
    /// display loop, and returns how many were accepted. The history then
    /// holds the trimmed accepted lines, newest first, in front of what it
    /// held before.
    pub fn ingest_all(&mut self, lines: &Vec<String>) -> (count: usize)
        requires
            old(self).wf(),
        ensures
            final(self).wf(),
            count == accepted_lines(lines@.map_values(|s: String| s@)).len(),
            exists|es: Seq<EntryView>|
                es.len() == count && (forall|i: int|
                    0 <= i < es.len() ==> is_trim_of(
                        #[trigger] es[i].text,
                        accepted_lines(lines@.map_values(|s: String| s@))[i],
                    )) && final(self).history_view() == pushed_all(old(self).history_view(), es),
    {
        let ghost ls = lines@.map_values(|s: String| s@);
        let ghost h0 = self.history_view();
        let ghost mut es: Seq<EntryView> = Seq::empty();
        let mut count: usize = 0;
        let mut i: usize = 0;
        assert(ls.subrange(0, 0) =~= Seq::<Seq<char>>::empty());
        while i < lines.len()
            invariant
                self.wf(),
                i <= lines@.len(),
                ls == lines@.map_values(|s: String| s@),
                count <= i,
                count == accepted_lines(ls.subrange(0, i as int)).len(),
                es.len() == count,
                forall|k: int|
                    0 <= k < es.len() ==> is_trim_of(
                        #[trigger] es[k].text,
                        accepted_lines(ls.subrange(0, i as int))[k],
                    ),
                self.history_view() == pushed_all(h0, es),
            decreases lines@.len() - i,
        {
            let ghost prev = self.history_view();
            let ghost acc = accepted_lines(ls.subrange(0, i as int));
            assert(ls.subrange(0, i + 1).drop_last() =~= ls.subrange(0, i as int));
            assert(ls.subrange(0, i + 1).last() == lines[i as int]@);
            let applied = self.ingest(lines[i].as_str());
            if applied {
                let ghost e = choose|e: EntryView|
                    is_trim_of(e.text, lines[i as int]@) && #[trigger] self.history_view()
                        == pushed_front(prev, e);
                proof {
                    assert(es.push(e).drop_last() =~= es);
                    es = es.push(e);
                }
                count = count + 1;
            }
            i = i + 1;
        }
        assert(ls.subrange(0, i as int) =~= ls);
        count
    }
}

} // verus!
