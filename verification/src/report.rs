//! The terminal's status report: printers, their consumables, and the host
//! figures that are sent to the server.
use vstd::prelude::*;
use crate::json::{
    array_fields, json_array_fields, json_member_list_fields, json_nested_fields,
    member_list_fields, nested_fields, rows_of_len, rows_view, texts_view,
};
use crate::numeric::{
    byte_to_g, bytes_per_gigabyte, decimal, float_quotient_i32, i32_to_decimal, kb_to_g,
    kilobytes_per_gigabyte, parse_i32, parsed_i32,
};
use crate::text::{strip_quotes, unquoted};

verus! {

/// The level reported for a consumable when no printer reported one.
pub const PRINTER_DEF: i32 = 9999;

/// Why a reply from a server could not be read.
#[derive(Debug, PartialEq, Eq, Structural, Clone, Copy)]
pub enum ReplyError {
    /// The reply is not JSON.
    InvalidJson,
    /// The reply is not a JSON object.
    NotAnObject,
    /// The reply object lacks the member that holds the list.
    MissingMember,
    /// The member that should hold the list is not a JSON array.
    NotAnArray,
}

/// What a printer reported, as plain values.
pub struct PrinterView {
    pub port_name: Seq<char>,
    pub ink: i32,
    pub paper: i32,
}

/// A printer with its port and the levels of its ink and paper.
#[derive(Debug, Clone)]
pub struct Printer {
    port_name: String,
    ink: i32,
    paper: i32,
}

impl View for Printer {
    type V = PrinterView;

    closed spec fn view(&self) -> PrinterView {
        PrinterView { port_name: self.port_name@, ink: self.ink, paper: self.paper }
    }
}

impl Printer {
    /// A printer on the given port with the given levels.
    pub fn new(ink: i32, paper: i32, port_name: String) -> (p: Self)
        ensures
            p@ == (PrinterView { port_name: port_name@, ink, paper }),
    {
        Self { port_name, ink, paper }
    }

    /// The port the printer is attached to.
    pub fn port_name(&self) -> (r: &String)
        ensures
            r@ == self@.port_name,
    {
        &self.port_name
    }

    /// The ink level.
    pub fn ink(&self) -> (r: i32)
        ensures
            r == self@.ink,
    {
        self.ink
    }

    /// The paper level.
    pub fn paper(&self) -> (r: i32)
        ensures
            r == self@.paper,
    {
        self.paper
    }
}

/// The views of a list of printers.
pub open spec fn printer_views(s: Seq<Printer>) -> Seq<PrinterView> {
    s.map_values(|p: Printer| p@)
}

/// The lowest ink level among the printers, or `PRINTER_DEF` when that is
/// lower or there are none.
pub open spec fn min_ink(s: Seq<PrinterView>) -> int
    decreases s.len(),
{
    if s.len() == 0 {
        PRINTER_DEF as int
    } else {
        let m: int = min_ink(s.drop_last());
        if s.last().ink < m {
            s.last().ink as int
        } else {
            m
        }
    }
}

/// The lowest paper level among the printers, or `PRINTER_DEF` when that is
/// lower or there are none.
pub open spec fn min_paper(s: Seq<PrinterView>) -> int
    decreases s.len(),
{
    if s.len() == 0 {
        PRINTER_DEF as int
    } else {
        let m: int = min_paper(s.drop_last());
        if s.last().paper < m {
            s.last().paper as int
        } else {
            m
        }
    }
}

/// The lowest ink and paper levels over all printers, each starting from
/// `PRINTER_DEF`.
pub fn min_printer_levels(printers: &Vec<Printer>) -> (r: (i32, i32))
    ensures
        r.0 == min_ink(printer_views(printers@)),
        r.1 == min_paper(printer_views(printers@)),
{
    let ghost all = printer_views(printers@);
    let mut ink: i32 = PRINTER_DEF;
    let mut paper: i32 = PRINTER_DEF;
    let mut i: usize = 0;
    while i < printers.len()
        invariant
            i <= printers.len(),
            all == printer_views(printers@),
            ink == min_ink(all.take(i as int)),
            paper == min_paper(all.take(i as int)),
        decreases printers.len() - i,
    {
        let p = &printers[i];
        assert(all.take(i + 1).drop_last() == all.take(i as int));
        assert(all.take(i + 1).last() == p@);
        if p.ink() < ink {
            ink = p.ink();
        }
        if p.paper() < paper {
            paper = p.paper();
        }
        i = i + 1;
    }
    assert(all.take(printers.len() as int) == all);
    (ink, paper)
}

/// The lowest levels are no higher than `PRINTER_DEF` nor than any printer's
/// level, and each is either `PRINTER_DEF` or some printer's level.
pub proof fn law_min_levels_are_minimal(s: Seq<PrinterView>)
    ensures
        min_ink(s) <= PRINTER_DEF,
        min_paper(s) <= PRINTER_DEF,
        forall|i: int| 0 <= i < s.len() ==> min_ink(s) <= #[trigger] s[i].ink,
        forall|i: int| 0 <= i < s.len() ==> min_paper(s) <= #[trigger] s[i].paper,
        min_ink(s) == PRINTER_DEF || exists|i: int| 0 <= i < s.len() && min_ink(s) == #[trigger] s[i].ink,
        min_paper(s) == PRINTER_DEF || exists|i: int|
            0 <= i < s.len() && min_paper(s) == #[trigger] s[i].paper,
    decreases s.len(),
{
    if s.len() > 0 {
        let t = s.drop_last();
        law_min_levels_are_minimal(t);
        assert forall|i: int| 0 <= i < s.len() implies min_ink(s) <= #[trigger] s[i].ink by {
            if i < t.len() {
                assert(s[i] == t[i]);
            }
        }
        assert forall|i: int| 0 <= i < s.len() implies min_paper(s) <= #[trigger] s[i].paper by {
            if i < t.len() {
                assert(s[i] == t[i]);
            }
        }
        if min_ink(s) != PRINTER_DEF {
            if s.last().ink < min_ink(t) {
                assert(min_ink(s) == s[s.len() - 1].ink);
            } else {
                let j: int = choose|j: int| 0 <= j < t.len() && min_ink(t) == #[trigger] t[j].ink;
                assert(s[j] == t[j]);
            }
        }
        if min_paper(s) != PRINTER_DEF {
            if s.last().paper < min_paper(t) {
                assert(min_paper(s) == s[s.len() - 1].paper);
            } else {
                let j: int = choose|j: int| 0 <= j < t.len() && min_paper(t) == #[trigger] t[j].paper;
                assert(s[j] == t[j]);
            }
        }
    }
}


/// What reading the list held by member `key` of a reply object gives: the
/// rows of field texts of its items, or why there are none.
pub open spec fn listed_rows(reply: Seq<char>, key: Seq<char>, fields: Seq<Seq<char>>) -> Result<
    Seq<Seq<Seq<char>>>,
    ReplyError,
> {
    match json_member_list_fields(reply, key, fields) {
        None => Err(ReplyError::NotAnObject),
        Some(None) => Err(ReplyError::MissingMember),
        Some(Some(None)) => Err(ReplyError::NotAnArray),
        Some(Some(Some(rows))) => Ok(rows),
    }
}

/// Reads, from one parse of the reply, the given fields of each item of the
/// list held by member `key`.
pub fn read_member_rows(reply: &str, key: &str, fields: &Vec<String>) -> (r: Result<
    Vec<Vec<String>>,
    ReplyError,
>)
    ensures
        match listed_rows(reply@, key@, texts_view(fields@)) {
            Err(e) => r == Err::<Vec<Vec<String>>, ReplyError>(e),
            Ok(rows) => r is Ok && rows_view(r->Ok_0@) == rows && rows_of_len(
                rows,
                fields.len() as nat,
            ),
        },
{
    match member_list_fields(reply, key, fields) {
        None => Err(ReplyError::NotAnObject),
        Some(None) => Err(ReplyError::MissingMember),
        Some(Some(None)) => Err(ReplyError::NotAnArray),
        Some(Some(Some(rows))) => Ok(rows),
    }
}

/// The field read of each printer in the device reply.
pub open spec fn port_fields() -> Seq<Seq<char>> {
    seq!["portName"@]
}

/// The port name of each printer of the device reply: the text of its
/// `portName` with its double quotes taken out.
pub open spec fn ports_of(rows: Seq<Seq<Seq<char>>>) -> Seq<Seq<char>> {
    rows.map_values(|row: Seq<Seq<char>>| unquoted(row[0]))
}

/// The port names of the printers in the reply to the device query: the
/// text of each item's `portName`, with its double quotes taken out. The
/// reply must be an object whose `printers` member is an array.
pub fn printer_ports(reply: &str) -> (r: Vec<String>)
    requires
        listed_rows(reply@, "printers"@, port_fields()) is Ok,
    ensures
        texts_view(r@) == ports_of(listed_rows(reply@, "printers"@, port_fields())->Ok_0),
{
    let mut fields: Vec<String> = Vec::new();
    fields.push(String::from_str("portName"));
    assert(texts_view(fields@) =~= port_fields());
    let rows = match read_member_rows(reply, "printers", &fields) {
        Ok(rows) => rows,
        Err(_) => {
            assert(false);
            Vec::new()
        },
    };
    let ghost want = ports_of(rows_view(rows@));
    let mut ports: Vec<String> = Vec::new();
    let mut i: usize = 0;
    while i < rows.len()
        invariant
            i <= rows.len(),
            want == ports_of(rows_view(rows@)),
            rows_of_len(rows_view(rows@), 1),
            texts_view(ports@) == want.take(i as int),
        decreases rows.len() - i,
    {
        assert(rows_view(rows@)[i as int] == texts_view(rows@[i as int]@));
        assert(rows_view(rows@)[i as int].len() == 1);
        let port = strip_quotes(rows[i][0].as_str());
        let ghost before = ports@;
        ports.push(port);
        assert(texts_view(ports@) == texts_view(before).push(port@));
        assert(want.take(i + 1) == want.take(i as int).push(want[i as int]));
        i = i + 1;
    }
    assert(want.take(rows.len() as int) == want);
    ports
}

/// Reads the port names of the device reply, or says why the reply does not
/// hold them.
pub fn try_printer_ports(reply: &str) -> (r: Result<Vec<String>, ReplyError>)
    ensures
        match listed_rows(reply@, "printers"@, port_fields()) {
            Err(e) => r == Err::<Vec<String>, ReplyError>(e),
            Ok(rows) => r is Ok && texts_view(r->Ok_0@) == ports_of(rows),
        },
{
    let mut fields: Vec<String> = Vec::new();
    fields.push(String::from_str("portName"));
    assert(texts_view(fields@) =~= port_fields());
    match read_member_rows(reply, "printers", &fields) {
        Err(e) => Err(e),
        Ok(_) => Ok(printer_ports(reply)),
    }
}

/// The dates and the id that the terminal query returns under `data`.
pub struct TerminalDates {
    pub upt_date_time: String,
    pub pub_date: String,
    pub upt_date: String,
    pub pub_date_time: String,
    pub id: String,
}

/// The keys read under `data` in the terminal reply, in order.
pub open spec fn date_keys() -> Seq<Seq<char>> {
    seq!["uptDateTime"@, "pubDate"@, "uptDate"@, "pubDateTime"@, "id"@]
}

/// The keys read under `data`, as executable strings.
fn date_key_list() -> (r: Vec<String>)
    ensures
        texts_view(r@) == date_keys(),
{
    let mut r: Vec<String> = Vec::new();
    r.push(String::from_str("uptDateTime"));
    r.push(String::from_str("pubDate"));
    r.push(String::from_str("uptDate"));
    r.push(String::from_str("pubDateTime"));
    r.push(String::from_str("id"));
    assert(texts_view(r@) =~= date_keys());
    r
}

/// Whether the five terminal fields match `unquoted(info["data"][key].to_string())`
/// for the texts `v` read from one parse of the reply.
pub open spec fn dates_match(t: TerminalDates, v: Seq<Seq<char>>) -> bool {
    &&& t.upt_date_time@ == unquoted(v[0])
    &&& t.pub_date@ == unquoted(v[1])
    &&& t.upt_date@ == unquoted(v[2])
    &&& t.pub_date_time@ == unquoted(v[3])
    &&& t.id@ == unquoted(v[4])
}

/// Reads the reply to the terminal query, which must be JSON: each field of
/// `data`, written out as JSON with its double quotes taken out (`null`
/// where it is missing).
pub fn terminal_dates(reply: &str) -> (t: TerminalDates)
    requires
        json_nested_fields(reply@, "data"@, date_keys()) is Some,
    ensures
        dates_match(t, json_nested_fields(reply@, "data"@, date_keys())->0),
{
    let keys = date_key_list();
    assert(texts_view(keys@).len() == 5);
    let v = match nested_fields(reply, "data", &keys) {
        Some(v) => v,
        None => {
            assert(false);
            Vec::new()
        },
    };
    assert(texts_view(v@)[0] == v@[0]@);
    assert(texts_view(v@)[1] == v@[1]@);
    assert(texts_view(v@)[2] == v@[2]@);
    assert(texts_view(v@)[3] == v@[3]@);
    assert(texts_view(v@)[4] == v@[4]@);
    TerminalDates {
        upt_date_time: strip_quotes(v[0].as_str()),
        pub_date: strip_quotes(v[1].as_str()),
        upt_date: strip_quotes(v[2].as_str()),
        pub_date_time: strip_quotes(v[3].as_str()),
        id: strip_quotes(v[4].as_str()),
    }
}

/// Reads the reply to the terminal query, or says that it is not JSON.
pub fn try_terminal_dates(reply: &str) -> (r: Result<TerminalDates, ReplyError>)
    ensures
        json_nested_fields(reply@, "data"@, date_keys()) is None ==> r
            == Err::<TerminalDates, ReplyError>(ReplyError::InvalidJson),
        json_nested_fields(reply@, "data"@, date_keys()) matches Some(v) ==> (r matches Ok(t)
            && dates_match(t, v)),
{
    let keys = date_key_list();
    match nested_fields(reply, "data", &keys) {
        None => Err(ReplyError::InvalidJson),
        Some(_) => Ok(terminal_dates(reply)),
    }
}

/// The level a consumable reports: its text read as an `i32`, or 0 when it
/// does not read as one.
pub open spec fn level_of(text: Seq<char>) -> i32 {
    match parsed_i32(text) {
        Some(v) => v,
        None => 0,
    }
}

/// The fields read of each consumable, in order: its kind and its level.
pub open spec fn consumable_fields() -> Seq<Seq<char>> {
    seq!["ConsumableTypeEnum"@, "ConsumablePercentageLevelRemaining"@]
}

/// The consumable fields, as executable strings.
fn consumable_field_list() -> (r: Vec<String>)
    ensures
        texts_view(r@) == consumable_fields(),
{
    let mut r: Vec<String> = Vec::new();
    r.push(String::from_str("ConsumableTypeEnum"));
    r.push(String::from_str("ConsumablePercentageLevelRemaining"));
    assert(texts_view(r@) =~= consumable_fields());
    r
}

/// The ink and paper levels after going through the consumables in order:
/// each item whose kind (quotes taken out) is `ink` or `paper` sets that
/// level, later items winning; a level no item sets stays `PRINTER_DEF`.
pub open spec fn levels_after(rows: Seq<Seq<Seq<char>>>) -> (i32, i32)
    decreases rows.len(),
{
    if rows.len() == 0 {
        (PRINTER_DEF, PRINTER_DEF)
    } else {
        let before = levels_after(rows.drop_last());
        let row = rows.last();
        let kind = unquoted(row[0]);
        let level: i32 = level_of(unquoted(row[1]));
        (
            if kind == "ink"@ { level } else { before.0 },
            if kind == "paper"@ { level } else { before.1 },
        )
    }
}

/// Reads the reply to a printer's consumable query, which must be a JSON
/// array.
pub fn consumable_levels(reply: &str) -> (r: (i32, i32))
    requires
        json_array_fields(reply@, consumable_fields()) is Some,
    ensures
        r == levels_after(json_array_fields(reply@, consumable_fields())->0),
{
    let fields = consumable_field_list();
    assert(texts_view(fields@).len() == 2);
    let rows = match array_fields(reply, &fields) {
        Some(rows) => rows,
        None => {
            assert(false);
            Vec::new()
        },
    };
    let ghost all = rows_view(rows@);
    let ink_kind = String::from_str("ink");
    let paper_kind = String::from_str("paper");
    let mut ink: i32 = PRINTER_DEF;
    let mut paper: i32 = PRINTER_DEF;
    let mut i: usize = 0;
    while i < rows.len()
        invariant
            i <= rows.len(),
            all == rows_view(rows@),
            rows_of_len(all, 2),
            ink_kind@ == "ink"@,
            paper_kind@ == "paper"@,
            (ink, paper) == levels_after(all.take(i as int)),
        decreases rows.len() - i,
    {
        let row = &rows[i];
        assert(all.take(i + 1).drop_last() == all.take(i as int));
        assert(all.take(i + 1).last() == all[i as int]);
        assert(all[i as int] == texts_view(row@));
        assert(all[i as int].len() == 2);
        let kind = strip_quotes(row[0].as_str());
        if kind == ink_kind {
            let level_text = strip_quotes(row[1].as_str());
            ink = match parse_i32(level_text.as_str()) {
                Some(v) => v,
                None => 0,
            };
        }
        if kind == paper_kind {
            let level_text = strip_quotes(row[1].as_str());
            paper = match parse_i32(level_text.as_str()) {
                Some(v) => v,
                None => 0,
            };
        }
        i = i + 1;
    }
    assert(all.take(rows.len() as int) == all);
    (ink, paper)
}

/// Reads the reply to a printer's consumable query, or says that it is not
/// a JSON array.
pub fn try_consumable_levels(reply: &str) -> (r: Result<(i32, i32), ReplyError>)
    ensures
        match json_array_fields(reply@, consumable_fields()) {
            None => r == Err::<(i32, i32), ReplyError>(ReplyError::NotAnArray),
            Some(rows) => r == Ok::<(i32, i32), ReplyError>(levels_after(rows)),
        },
{
    let fields = consumable_field_list();
    match array_fields(reply, &fields) {
        None => Err(ReplyError::NotAnArray),
        Some(_) => Ok(consumable_levels(reply)),
    }
}

/// What the host reported about itself, gathered outside the library.
pub struct HostMetrics {
    /// The total space of each disk, in bytes.
    pub disk_totals: Vec<u64>,
    /// The available space of each disk, in bytes.
    pub disk_available: Vec<u64>,
    /// The total memory, in the unit that `kb_to_g` expects.
    pub total_memory: u64,
    /// The available memory, in the unit that `kb_to_g` expects.
    pub available_memory: u64,
    /// The MAC address, as text.
    pub mac: String,
    /// The local IP address, as text.
    pub ip: String,
}

/// The sum of a list of counts.
pub open spec fn total(s: Seq<u64>) -> nat
    decreases s.len(),
{
    if s.len() == 0 {
        0
    } else {
        total(s.drop_last()) + s.last() as nat
    }
}

/// Whether the disk sums of the metrics fit in a `u64`.
pub open spec fn metrics_fit(m: HostMetrics) -> bool {
    total(m.disk_totals@) <= u64::MAX && total(m.disk_available@) <= u64::MAX
}

/// Adds up a list of counts whose sum fits in a `u64`.
pub fn sum_counts(v: &Vec<u64>) -> (r: u64)
    requires
        total(v@) <= u64::MAX,
    ensures
        r == total(v@),
{
    let mut acc: u64 = 0;
    let mut i: usize = 0;
    while i < v.len()
        invariant
            i <= v.len(),
            total(v@) <= u64::MAX,
            acc == total(v@.take(i as int)),
        decreases v.len() - i,
    {
        assert(v@.take(i + 1).drop_last() == v@.take(i as int));
        proof {
            lemma_total_prefix(v@, i + 1);
        }
        acc = acc + v[i];
        i = i + 1;
    }
    assert(v@.take(v.len() as int) == v@);
    acc
}

/// A prefix never sums to more than the whole list.
proof fn lemma_total_prefix(s: Seq<u64>, k: int)
    requires
        0 <= k <= s.len(),
    ensures
        total(s.take(k)) <= total(s),
    decreases s.len(),
{
    if k < s.len() {
        lemma_total_prefix(s.drop_last(), k);
        assert(s.drop_last().take(k) == s.take(k));
    } else {
        assert(s.take(k) == s);
    }
}

/// The report as plain text fields.
#[allow(non_snake_case)]
pub struct SendInfoView {
    pub cpuRate: Seq<char>,
    pub memoryVolume: Seq<char>,
    pub memoryAvailable: Seq<char>,
    pub diskVolume: Seq<char>,
    pub diskAvailable: Seq<char>,
    pub ink: Seq<char>,
    pub paper: Seq<char>,
    pub ip: Seq<char>,
    pub mac: Seq<char>,
    pub id: Seq<char>,
    pub file: Seq<char>,
    pub uptDateTime: Seq<char>,
    pub pubDate: Seq<char>,
    pub uptDate: Seq<char>,
    pub pubDateTime: Seq<char>,
}

/// The report that the terminal sends to the server.
#[allow(non_snake_case)]
#[derive(Debug, Clone)]
pub struct SendInfo {
    pub cpuRate: String,
    pub memoryVolume: String,
    pub memoryAvailable: String,
    pub diskVolume: String,
    pub diskAvailable: String,
    pub ink: String,
    pub paper: String,
    pub ip: String,
    pub mac: String,
    pub id: String,
    pub file: String,
    uptDateTime: String,
    pubDate: String,
    uptDate: String,
    pubDateTime: String,
}

impl View for SendInfo {
    type V = SendInfoView;

    closed spec fn view(&self) -> SendInfoView {
        SendInfoView {
            cpuRate: self.cpuRate@,
            memoryVolume: self.memoryVolume@,
            memoryAvailable: self.memoryAvailable@,
            diskVolume: self.diskVolume@,
            diskAvailable: self.diskAvailable@,
            ink: self.ink@,
            paper: self.paper@,
            ip: self.ip@,
            mac: self.mac@,
            id: self.id@,
            file: self.file@,
            uptDateTime: self.uptDateTime@,
            pubDate: self.pubDate@,
            uptDate: self.uptDate@,
            pubDateTime: self.pubDateTime@,
        }
    }
}

/// The decimal text of the whole gigabytes in a byte count.
pub open spec fn gigabytes_text(bytes: nat) -> Seq<char> {
    decimal(float_quotient_i32(bytes, bytes_per_gigabyte()) as int)
}

/// The decimal text of the whole gigabytes in a kilobyte count.
pub open spec fn memory_text(kb: nat) -> Seq<char> {
    decimal(float_quotient_i32(kb, kilobytes_per_gigabyte()) as int)
}

/// The text of a consumable level in the report: empty when the ink level
/// is the default one, else the decimal text of `level`.
pub open spec fn level_text(ink: i32, level: i32) -> Seq<char> {
    if ink == PRINTER_DEF {
        Seq::empty()
    } else {
        decimal(level as int)
    }
}

impl SendInfo {
    /// A first report from the host's figures: no levels, no dates, no id and
    /// no file yet.
    pub fn new(metrics: &HostMetrics, cpu_rate: String) -> (r: Self)
        requires
            metrics_fit(*metrics),
        ensures
            r@ == (SendInfoView {
                cpuRate: cpu_rate@,
                memoryVolume: memory_text(metrics.total_memory as nat),
                memoryAvailable: memory_text(metrics.available_memory as nat),
                diskVolume: gigabytes_text(total(metrics.disk_totals@)),
                diskAvailable: gigabytes_text(total(metrics.disk_available@)),
                ink: Seq::empty(),
                paper: Seq::empty(),
                ip: metrics.ip@,
                mac: metrics.mac@,
                id: Seq::empty(),
                file: Seq::empty(),
                uptDateTime: Seq::empty(),
                pubDate: Seq::empty(),
                uptDate: Seq::empty(),
                pubDateTime: Seq::empty(),
            }),
    {
        let all_disk_space: u64 = sum_counts(&metrics.disk_totals);
        let available_space: u64 = sum_counts(&metrics.disk_available);
        SendInfo {
            cpuRate: cpu_rate,
            memoryVolume: i32_to_decimal(kb_to_g(metrics.total_memory)),
            memoryAvailable: i32_to_decimal(kb_to_g(metrics.available_memory)),
            diskVolume: i32_to_decimal(byte_to_g(all_disk_space)),
            diskAvailable: i32_to_decimal(byte_to_g(available_space)),
            ink: String::new(),
            paper: String::new(),
            ip: metrics.ip.clone(),
            mac: metrics.mac.clone(),
            id: String::new(),
            file: String::new(),
            uptDateTime: String::new(),
            pubDate: String::new(),
            uptDate: String::new(),
            pubDateTime: String::new(),
        }
    }

    /// Refreshes the report with the lowest printer levels, the dates and id
    /// from the server, the host's figures and the content of the path file.
    ///
    /// The paper text is left empty whenever the ink level is the default
    /// one, whatever the paper level is.
    pub fn update(
        &mut self,
        ink: i32,
        paper: i32,
        upt_date_time: String,
        pub_date: String,
        upt_date: String,
        pub_date_time: String,
        id: String,
        metrics: &HostMetrics,
        cpu_rate: i32,
        file: String,
    )
        requires
            metrics_fit(*metrics),
        ensures
            final(self)@ == (SendInfoView {
                cpuRate: decimal(cpu_rate as int),
                memoryVolume: memory_text(metrics.total_memory as nat),
                memoryAvailable: memory_text(metrics.available_memory as nat),
                diskVolume: gigabytes_text(total(metrics.disk_totals@)),
                diskAvailable: gigabytes_text(total(metrics.disk_available@)),
                ink: level_text(ink, ink),
                paper: level_text(ink, paper),
                ip: metrics.ip@,
                mac: metrics.mac@,
                id: id@,
                file: file@,
                uptDateTime: upt_date_time@,
                pubDate: pub_date@,
                uptDate: upt_date@,
                pubDateTime: pub_date_time@,
            }),
    {
        let all_disk_space: u64 = sum_counts(&metrics.disk_totals);
        let available_space: u64 = sum_counts(&metrics.disk_available);
        if ink == PRINTER_DEF {
            self.ink = String::new();
        } else {
            self.ink = i32_to_decimal(ink);
        }
        if ink == PRINTER_DEF {
            self.paper = String::new();
        } else {
            self.paper = i32_to_decimal(paper);
        }
        self.cpuRate = i32_to_decimal(cpu_rate);
        self.memoryVolume = i32_to_decimal(kb_to_g(metrics.total_memory));
        self.memoryAvailable = i32_to_decimal(kb_to_g(metrics.available_memory));
        self.diskVolume = i32_to_decimal(byte_to_g(all_disk_space));
        self.diskAvailable = i32_to_decimal(byte_to_g(available_space));
        self.mac = metrics.mac.clone();
        self.ip = metrics.ip.clone();
        self.file = file;
        self.uptDate = upt_date;
        self.pubDate = pub_date;
        self.pubDateTime = pub_date_time;
        self.uptDateTime = upt_date_time;
        self.id = id;
    }

    /// A report with the given texts.
    #[allow(non_snake_case)]
    pub fn with_fields(
        cpuRate: String,
        memoryVolume: String,
        memoryAvailable: String,
        diskVolume: String,
        diskAvailable: String,
        ink: String,
        paper: String,
        ip: String,
        mac: String,
        id: String,
        file: String,
        uptDateTime: String,
        pubDate: String,
        uptDate: String,
        pubDateTime: String,
    ) -> (r: Self)
        ensures
            r@ == (SendInfoView {
                cpuRate: cpuRate@,
                memoryVolume: memoryVolume@,
                memoryAvailable: memoryAvailable@,
                diskVolume: diskVolume@,
                diskAvailable: diskAvailable@,
                ink: ink@,
                paper: paper@,
                ip: ip@,
                mac: mac@,
                id: id@,
                file: file@,
                uptDateTime: uptDateTime@,
                pubDate: pubDate@,
                uptDate: uptDate@,
                pubDateTime: pubDateTime@,
            }),
    {
        SendInfo {
            cpuRate,
            memoryVolume,
            memoryAvailable,
            diskVolume,
            diskAvailable,
            ink,
            paper,
            ip,
            mac,
            id,
            file,
            uptDateTime,
            pubDate,
            uptDate,
            pubDateTime,
        }
    }

    /// The update time of the published data.
    pub fn upt_date_time(&self) -> (r: &String)
        ensures
            r@ == self@.uptDateTime,
    {
        &self.uptDateTime
    }

    /// The publication date.
    pub fn pub_date(&self) -> (r: &String)
        ensures
            r@ == self@.pubDate,
    {
        &self.pubDate
    }

    /// The update date.
    pub fn upt_date(&self) -> (r: &String)
        ensures
            r@ == self@.uptDate,
    {
        &self.uptDate
    }

    /// The publication time.
    pub fn pub_date_time(&self) -> (r: &String)
        ensures
            r@ == self@.pubDateTime,
    {
        &self.pubDateTime
    }
}


/// The address of the terminal query on the server at `base`.
pub fn terminal_mac_url(base: &str) -> (r: String)
    ensures
        r@ == base@ + "/api/terminal/mac"@,
{
    let mut r = String::from_str(base);
    r.append("/api/terminal/mac");
    r
}

/// The address the report is posted to on the server at `base`.
pub fn terminal_save_url(base: &str) -> (r: String)
    ensures
        r@ == base@ + "/api/terminal/save"@,
{
    let mut r = String::from_str(base);
    r.append("/api/terminal/save");
    r
}

/// The address of the consumable query for the printer on `port`.
pub fn consumable_status_url(port: &str) -> (r: String)
    ensures
        r@ == "https://localhost:8081/status/consumable/"@ + port@,
{
    let mut r = String::from_str("https://localhost:8081/status/consumable/");
    r.append(port);
    r
}


/// In a refreshed report the ink and paper texts are both empty (the ink
/// level is the default one) or both hold a number.
pub proof fn law_levels_blank_together(ink: i32, paper: i32)
    ensures
        (level_text(ink, ink).len() == 0) == (level_text(ink, paper).len() == 0),
        (level_text(ink, ink).len() == 0) == (ink == PRINTER_DEF),
{
    crate::numeric::lemma_decimal_nonempty(ink as int);
    crate::numeric::lemma_decimal_nonempty(paper as int);
}

/// The texts of a refreshed report: the ink text is empty for the default
/// ink level and the decimal ink level otherwise; the paper text is empty
/// for the default ink level and the decimal paper level otherwise; memory
/// is `kb / 2^20` whole gigabytes and disk space below `2^53` bytes is
/// `bytes / 2^30`, each written in decimal.
pub proof fn law_report_texts(ink: i32, paper: i32, kb: nat, bytes: nat)
    ensures
        ink == PRINTER_DEF ==> level_text(ink, ink) == Seq::<char>::empty() && level_text(ink, paper)
            == Seq::<char>::empty(),
        ink != PRINTER_DEF ==> level_text(ink, ink) == decimal(ink as int) && level_text(ink, paper)
            == decimal(paper as int),
        memory_text(kb) == decimal(
            if kb / kilobytes_per_gigabyte() > i32::MAX {
                i32::MAX as int
            } else {
                (kb / kilobytes_per_gigabyte()) as int
            },
        ),
        bytes < crate::numeric::significand_limit() ==> gigabytes_text(bytes) == decimal(
            (bytes / bytes_per_gigabyte()) as int,
        ),
{
    crate::numeric::law_whole_gigabytes(kb);
    crate::numeric::law_whole_gigabytes(bytes);
}

/// A consumable level is the text read as an `i32` when it reads as one,
/// and 0 otherwise.
pub proof fn law_level_of(text: Seq<char>)
    ensures
        parsed_i32(text) matches Some(v) ==> level_of(text) == v,
        parsed_i32(text) is None ==> level_of(text) == 0,
{
}

/// A reply that lists no consumables leaves both levels at the default.
pub proof fn law_no_consumables_default_levels()
    ensures
        levels_after(Seq::<Seq<Seq<char>>>::empty()) == (PRINTER_DEF, PRINTER_DEF),
{
}


/// Every field read from the terminal reply is the JSON text of the member
/// of `data` with the same name, with its double quotes taken out, so none
/// holds a double quote.
pub proof fn law_terminal_fields_unquoted(t: TerminalDates, v: Seq<Seq<char>>)
    requires
        dates_match(t, v),
    ensures
        date_keys().len() == 5,
        date_keys()[0] == "uptDateTime"@ && date_keys()[1] == "pubDate"@ && date_keys()[2]
            == "uptDate"@ && date_keys()[3] == "pubDateTime"@ && date_keys()[4] == "id"@,
        t.upt_date_time@ == unquoted(v[0]) && !t.upt_date_time@.contains('"'),
        t.pub_date@ == unquoted(v[1]) && !t.pub_date@.contains('"'),
        t.upt_date@ == unquoted(v[2]) && !t.upt_date@.contains('"'),
        t.pub_date_time@ == unquoted(v[3]) && !t.pub_date_time@.contains('"'),
        t.id@ == unquoted(v[4]) && !t.id@.contains('"'),
{
    crate::text::law_unquoted_has_no_quotes(v[0]);
    crate::text::law_unquoted_has_no_quotes(v[1]);
    crate::text::law_unquoted_has_no_quotes(v[2]);
    crate::text::law_unquoted_has_no_quotes(v[3]);
    crate::text::law_unquoted_has_no_quotes(v[4]);
}

/// There is one port name per printer, read from its `portName`, and none
/// holds a double quote.
pub proof fn law_ports_unquoted(rows: Seq<Seq<Seq<char>>>)
    ensures
        port_fields() == seq!["portName"@],
        forall|i: int| 0 <= i < rows.len() ==> #[trigger] ports_of(rows)[i] == unquoted(rows[i][0]),
        ports_of(rows).len() == rows.len(),
        forall|i: int| 0 <= i < rows.len() ==> !(#[trigger] ports_of(rows)[i]).contains('"'),
{
    assert forall|i: int| 0 <= i < rows.len() implies !(#[trigger] ports_of(rows)[i]).contains('"') by {
        crate::text::law_unquoted_has_no_quotes(rows[i][0]);
    }
}

/// Whether a consumable row is of the given kind.
pub open spec fn row_kind_is(row: Seq<Seq<char>>, kind: Seq<char>) -> bool {
    unquoted(row[0]) == kind
}

/// The level of the given kind after going through the consumables: the
/// ink level for `ink`, the paper level otherwise.
pub open spec fn level_for(rows: Seq<Seq<Seq<char>>>, ink: bool) -> i32 {
    if ink {
        levels_after(rows).0
    } else {
        levels_after(rows).1
    }
}

/// The name of the kind: `ink` or `paper`.
pub open spec fn kind_name(ink: bool) -> Seq<char> {
    if ink {
        "ink"@
    } else {
        "paper"@
    }
}

#[verifier::rlimit(40)]
proof fn lemma_last_of_kind(rows: Seq<Seq<Seq<char>>>, ink: bool)
    ensures
        forall|i: int|
            0 <= i < rows.len() && #[trigger] row_kind_is(rows[i], kind_name(ink)) && (forall|j: int|
                i < j < rows.len() ==> !row_kind_is(#[trigger] rows[j], kind_name(ink))) ==> level_for(
                rows,
                ink,
            ) == level_of(unquoted(rows[i][1])),
        (forall|j: int| 0 <= j < rows.len() ==> !row_kind_is(#[trigger] rows[j], kind_name(ink)))
            ==> level_for(rows, ink) == PRINTER_DEF,
    decreases rows.len(),
{
    if rows.len() > 0 {
        let t = rows.drop_last();
        lemma_last_of_kind(t, ink);
        let n: int = rows.len() - 1;
        assert(rows.last() == rows[n]);
        assert(!row_kind_is(rows[n], kind_name(ink)) ==> level_for(rows, ink) == level_for(t, ink));
        assert forall|i: int|
            0 <= i < rows.len() && #[trigger] row_kind_is(rows[i], kind_name(ink)) && (forall|j: int|
                i < j < rows.len() ==> !row_kind_is(#[trigger] rows[j], kind_name(ink))) implies level_for(
            rows,
            ink,
        ) == level_of(unquoted(rows[i][1])) by {
            if i < n {
                assert(!row_kind_is(rows[n], kind_name(ink)));
                assert(t[i] == rows[i]);
                assert forall|j: int| i < j < t.len() implies !row_kind_is(#[trigger] t[j], kind_name(ink)) by {
                    assert(t[j] == rows[j]);
                }
            }
        }
        if forall|j: int| 0 <= j < rows.len() ==> !row_kind_is(#[trigger] rows[j], kind_name(ink)) {
            assert(!row_kind_is(rows[n], kind_name(ink)));
            assert forall|j: int| 0 <= j < t.len() implies !row_kind_is(#[trigger] t[j], kind_name(ink)) by {
                assert(t[j] == rows[j]);
            }
        }
    }
}

/// Each level is set by the last consumable of its kind, whatever the items
/// of the other kind and wherever they stand, and stays `PRINTER_DEF` when
/// there is no consumable of its kind; the kind and the level are read from
/// `ConsumableTypeEnum` and `ConsumablePercentageLevelRemaining`.
pub proof fn law_last_consumable_of_kind_sets_level(rows: Seq<Seq<Seq<char>>>)
    ensures
        forall|i: int|
            0 <= i < rows.len() && #[trigger] row_kind_is(rows[i], "ink"@) && (forall|j: int|
                i < j < rows.len() ==> !row_kind_is(#[trigger] rows[j], "ink"@)) ==> levels_after(rows).0
                == level_of(unquoted(rows[i][1])),
        forall|i: int|
            0 <= i < rows.len() && #[trigger] row_kind_is(rows[i], "paper"@) && (forall|j: int|
                i < j < rows.len() ==> !row_kind_is(#[trigger] rows[j], "paper"@)) ==> levels_after(rows).1
                == level_of(unquoted(rows[i][1])),
        (forall|j: int| 0 <= j < rows.len() ==> !row_kind_is(#[trigger] rows[j], "ink"@)) ==> levels_after(
            rows,
        ).0 == PRINTER_DEF,
        (forall|j: int| 0 <= j < rows.len() ==> !row_kind_is(#[trigger] rows[j], "paper"@))
            ==> levels_after(rows).1 == PRINTER_DEF,
        consumable_fields() == seq!["ConsumableTypeEnum"@, "ConsumablePercentageLevelRemaining"@],
{
    lemma_last_of_kind(rows, true);
    lemma_last_of_kind(rows, false);
}

/// The disk total is the plain sum of every entry, repeated values included:
/// adding an entry adds its value, and a list made of two parts sums to the
/// sum of the parts.
pub proof fn law_total_is_sum(s: Seq<u64>, t: Seq<u64>, x: u64)
    ensures
        total(s.push(x)) == total(s) + x,
        total(s + t) == total(s) + total(t),
        total(seq![x, x]) == 2 * x,
    decreases t.len(),
{
    assert(s.push(x).drop_last() == s);
    if t.len() > 0 {
        law_total_is_sum(s, t.drop_last(), x);
        assert((s + t).drop_last() == s + t.drop_last());
        assert((s + t).last() == t.last());
    } else {
        assert(s + t == s);
    }
    assert(seq![x, x].drop_last() == seq![x]);
    assert(seq![x].drop_last() == Seq::<u64>::empty());
    assert(total(Seq::<u64>::empty()) == 0);
    assert(total(seq![x]) == x);
    assert(total(seq![x, x]) == total(seq![x]) + x);
}


/// Reading a list member gives its rows when the reply is an object whose
/// member is an array; otherwise the error names the first thing missing:
/// an object, then the member, then an array.
pub proof fn law_listed_rows(reply: Seq<char>, key: Seq<char>, fields: Seq<Seq<char>>)
    ensures
        json_member_list_fields(reply, key, fields) is None ==> listed_rows(reply, key, fields) == Err::<
            Seq<Seq<Seq<char>>>,
            ReplyError,
        >(ReplyError::NotAnObject),
        json_member_list_fields(reply, key, fields) == Some(None::<Option<Seq<Seq<Seq<char>>>>>)
            ==> listed_rows(reply, key, fields) == Err::<Seq<Seq<Seq<char>>>, ReplyError>(
            ReplyError::MissingMember,
        ),
        json_member_list_fields(reply, key, fields) == Some(Some(None::<Seq<Seq<Seq<char>>>>))
            ==> listed_rows(reply, key, fields) == Err::<Seq<Seq<Seq<char>>>, ReplyError>(
            ReplyError::NotAnArray,
        ),
        json_member_list_fields(reply, key, fields) matches Some(Some(Some(rows))) ==> listed_rows(
            reply,
            key,
            fields,
        ) == Ok::<Seq<Seq<Seq<char>>>, ReplyError>(rows),
{
}

} // verus!
