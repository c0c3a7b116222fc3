//! Parser and semantic diagnostics as owned values, their one-line text,
//! and the assembly of a diagnostic list from the records a compiler
//! reports.
use vstd::prelude::*;
use ariadne::{Color, Label, Report, ReportKind, Source};

verus! {

/// The severity of a diagnostic.
#[derive(Clone, Copy, Debug, PartialEq, Eq, Structural)]
pub enum DiagSeverity {
    /// Suppressed.
    Ignored,
    /// A note attached to another diagnostic.
    Note,
    /// A warning.
    Warning,
    /// An error.
    Error,
    /// An error that stops processing.
    Fatal,
}

/// A diagnostic's code: its subsystem, its number there, and its symbolic
/// name (e.g. `"UnknownModule"`).
#[derive(Debug, PartialEq, Eq)]
pub struct DiagCode {
    /// The subsystem the code belongs to.
    pub subsystem: u16,
    /// The code's number within its subsystem.
    pub code: u16,
    /// The symbolic name.
    pub name: String,
}

impl Clone for DiagCode {
    /// An equal copy.
    fn clone(&self) -> (r: DiagCode)
        ensures
            r == *self,
    {
        DiagCode { subsystem: self.subsystem, code: self.code, name: self.name.clone() }
    }
}

/// One diagnostic produced by parsing or elaboration.
#[derive(Debug)]
#[non_exhaustive]
pub struct Diagnostic {
    /// The diagnostic's code.
    pub code: DiagCode,
    /// The effective severity.
    pub severity: DiagSeverity,
    /// The fully formatted message.
    pub message: String,
    /// 1-based line number of the primary location, if it has a file.
    pub line: usize,
    /// 1-based column number of the primary location.
    pub column: usize,
    /// The file name of the primary location.
    pub file: String,
    /// Byte offset of the primary span within `source`.
    pub byte_offset: usize,
    /// Byte length of the primary span (at least 1 for a point location).
    pub byte_len: usize,
    /// The full source text of the buffer the diagnostic points into, when
    /// it points into a real, nonempty buffer.
    pub source: Option<String>,
}

/// The word a severity is printed as.
pub open spec fn severity_text(s: DiagSeverity) -> Seq<char> {
    match s {
        DiagSeverity::Ignored => "ignored"@,
        DiagSeverity::Note => "note"@,
        DiagSeverity::Warning => "warning"@,
        DiagSeverity::Error => "error"@,
        DiagSeverity::Fatal => "fatal"@,
    }
}

/// The word a severity is printed as: `ignored`, `note`, `warning`,
/// `error` or `fatal`.
pub fn severity_label(s: DiagSeverity) -> (r: &'static str)
    ensures
        r@ == severity_text(s),
{
    match s {
        DiagSeverity::Ignored => "ignored",
        DiagSeverity::Note => "note",
        DiagSeverity::Warning => "warning",
        DiagSeverity::Error => "error",
        DiagSeverity::Fatal => "fatal",
    }
}

/// The character of a decimal digit.
pub open spec fn digit_char(d: nat) -> char {
    if d == 0 {
        '0'
    } else if d == 1 {
        '1'
    } else if d == 2 {
        '2'
    } else if d == 3 {
        '3'
    } else if d == 4 {
        '4'
    } else if d == 5 {
        '5'
    } else if d == 6 {
        '6'
    } else if d == 7 {
        '7'
    } else if d == 8 {
        '8'
    } else {
        '9'
    }
}

/// The decimal numeral of `n`, without leading zeros.
pub open spec fn decimal_text(n: nat) -> Seq<char>
    decreases n,
{
    if n < 10 {
        seq![digit_char(n)]
    } else {
        decimal_text(n / 10) + seq![digit_char(n % 10)]
    }
}

/// The text of one decimal digit.
fn digit_str(d: usize) -> (r: &'static str)
    requires
        d < 10,
    ensures
        r@ == seq![digit_char(d as nat)],
{
    proof {
        reveal_strlit("0");
        reveal_strlit("1");
        reveal_strlit("2");
        reveal_strlit("3");
        reveal_strlit("4");
        reveal_strlit("5");
        reveal_strlit("6");
        reveal_strlit("7");
        reveal_strlit("8");
        reveal_strlit("9");
    }
    if d == 0 {
        "0"
    } else if d == 1 {
        "1"
    } else if d == 2 {
        "2"
    } else if d == 3 {
        "3"
    } else if d == 4 {
        "4"
    } else if d == 5 {
        "5"
    } else if d == 6 {
        "6"
    } else if d == 7 {
        "7"
    } else if d == 8 {
        "8"
    } else {
        "9"
    }
}

/// The decimal numeral of `n`.
pub fn decimal_string(n: usize) -> (r: String)
    ensures
        r@ == decimal_text(n as nat),
    decreases n,
{
    if n < 10 {
        String::from_str(digit_str(n))
    } else {
        let mut s = decimal_string(n / 10);
        s.append(digit_str(n % 10));
        s
    }
}

/// The one-line text of a diagnostic: `severity: message` when it has no
/// file, otherwise `file:line:column: severity: message`.
pub open spec fn diagnostic_text(d: Diagnostic) -> Seq<char> {
    if d.file@.len() == 0 {
        severity_text(d.severity) + ": "@ + d.message@
    } else {
        d.file@ + ":"@ + decimal_text(d.line as nat) + ":"@ + decimal_text(d.column as nat) + ": "@
            + severity_text(d.severity) + ": "@ + d.message@
    }
}

/// True for an error or fatal severity.
pub open spec fn severity_is_error(s: DiagSeverity) -> bool {
    s == DiagSeverity::Error || s == DiagSeverity::Fatal
}

impl Diagnostic {
    /// A diagnostic with the given fields.
    pub fn new(
        code: DiagCode,
        severity: DiagSeverity,
        message: String,
        line: usize,
        column: usize,
        file: String,
        byte_offset: usize,
        byte_len: usize,
        source: Option<String>,
    ) -> (r: Diagnostic)
        ensures
            r == (Diagnostic {
                code,
                severity,
                message,
                line,
                column,
                file,
                byte_offset,
                byte_len,
                source,
            }),
    {
        Diagnostic { code, severity, message, line, column, file, byte_offset, byte_len, source }
    }

    /// True if this diagnostic is an error or fatal.
    pub fn is_error(&self) -> (r: bool)
        ensures
            r == severity_is_error(self.severity),
    {
        match self.severity {
            DiagSeverity::Error | DiagSeverity::Fatal => true,
            _ => false,
        }
    }

    /// The primary span as a byte range into `source`.
    pub fn span(&self) -> (r: core::ops::Range<usize>)
        requires
            self.byte_offset + self.byte_len <= usize::MAX,
        ensures
            r.start == self.byte_offset,
            r.end == self.byte_offset + self.byte_len,
    {
        core::ops::Range { start: self.byte_offset, end: self.byte_offset + self.byte_len }
    }

    /// The diagnostic's symbolic name, e.g. `"UnknownModule"`.
    pub fn code_name(&self) -> (r: &str)
        ensures
            r@ == self.code.name@,
    {
        self.code.name.as_str()
    }

    /// The diagnostic as one line of text: `severity: message` when it has
    /// no file, otherwise `file:line:column: severity: message`.
    pub fn to_string(&self) -> (r: String)
        ensures
            r@ == diagnostic_text(*self),
    {
        proof {
            reveal_strlit(":");
            reveal_strlit(": ");
        }
        let sev = severity_label(self.severity);
        if self.file.as_str().is_empty() {
            let mut s = String::from_str(sev);
            s.append(": ");
            s.append(self.message.as_str());
            s
        } else {
            let mut s = self.file.clone();
            s.append(":");
            let line = decimal_string(self.line);
            s.append(line.as_str());
            s.append(":");
            let column = decimal_string(self.column);
            s.append(column.as_str());
            s.append(": ");
            s.append(sev);
            s.append(": ");
            s.append(self.message.as_str());
            proof {
                assert(s@ =~= diagnostic_text(*self));
            }
            s
        }
    }
}

impl Clone for Diagnostic {
    /// An equal copy.
    fn clone(&self) -> (r: Diagnostic)
        ensures
            r == *self,
    {
        let source = match &self.source {
            Some(t) => Some(t.clone()),
            None => None,
        };
        Diagnostic {
            code: self.code.clone(),
            severity: self.severity,
            message: self.message.clone(),
            line: self.line,
            column: self.column,
            file: self.file.clone(),
            byte_offset: self.byte_offset,
            byte_len: self.byte_len,
            source,
        }
    }
}

/// The kind of report a diagnostic is rendered as.
#[derive(Clone, Copy, Debug, PartialEq, Eq, Structural)]
pub enum ReportKindTag {
    /// An error report.
    Error,
    /// A warning report.
    Warning,
    /// An advice report.
    Advice,
}

/// Errors and fatals are rendered as errors, warnings as warnings, the
/// rest as advice.
pub open spec fn report_kind_of(s: DiagSeverity) -> ReportKindTag {
    match s {
        DiagSeverity::Error | DiagSeverity::Fatal => ReportKindTag::Error,
        DiagSeverity::Warning => ReportKindTag::Warning,
        _ => ReportKindTag::Advice,
    }
}

/// A diagnostic is rendered as an error report exactly when it is an error
/// or fatal, as a warning report exactly when it is a warning, and as
/// advice otherwise.
pub proof fn lemma_report_kind_matches_severity(s: DiagSeverity)
    ensures
        (report_kind_of(s) == ReportKindTag::Error) <==> severity_is_error(s),
        (report_kind_of(s) == ReportKindTag::Warning) <==> s == DiagSeverity::Warning,
        (report_kind_of(s) == ReportKindTag::Advice) <==> (s == DiagSeverity::Note || s
            == DiagSeverity::Ignored),
{
}

/// The rendered report of a diagnostic with source text and a code of two
/// or more characters is headed `[code] Error:` when the diagnostic is an
/// error or fatal, `[code] Warning:` when it is a warning, and
/// `[code] Advice:` otherwise.
pub proof fn lemma_rendered_header(d: Diagnostic, r: Seq<char>)
    requires
        ariadne_text(d, r),
        d.source is Some,
        d.code.name@.len() >= 2,
    ensures
        contains_text(
            r,
            "["@ + d.code.name@ + "] "@ + (if severity_is_error(d.severity) {
                "Error"@
            } else if d.severity == DiagSeverity::Warning {
                "Warning"@
            } else {
                "Advice"@
            }) + ":"@,
        ),
{
}

/// Everything a rendered report of one diagnostic is built from, besides
/// the source text.
pub struct ReportRequest {
    /// The kind of report.
    pub kind: ReportKindTag,
    /// The name the source is shown under.
    pub source_name: String,
    /// Start of the labelled span.
    pub start: usize,
    /// End of the labelled span.
    pub end: usize,
    /// The code shown in the header.
    pub code: String,
    /// The header message.
    pub message: String,
    /// The text of the label under the span.
    pub label: String,
}

/// True when `pat` occurs in `s` as a contiguous run of characters.
pub open spec fn contains_text(s: Seq<char>, pat: Seq<char>) -> bool {
    exists|k: int| 0 <= k && k + pat.len() <= s.len() && #[trigger] s.subrange(k, k + pat.len()) == pat
}

/// The characters that end a line of a rendered source: carriage return,
/// line feed, vertical tab, form feed, next line, line separator and
/// paragraph separator.
pub open spec fn is_line_break(c: char) -> bool {
    c == '\r' || c == '\n' || c == '\x0B' || c == '\x0C' || c == '\u{0085}' || c == '\u{2028}'
        || c == '\u{2029}'
}

/// True when a line of `s` begins at position `p > 0`: just after a line
/// break, except between the two characters of a `\r\n` pair; no line
/// begins at the very end of `s`.
pub open spec fn starts_line(s: Seq<char>, p: int) -> bool {
    &&& 0 < p < s.len()
    &&& is_line_break(s[p - 1])
    &&& !(s[p - 1] == '\r' && s[p] == '\n')
}

/// The 0-based line of `s` that position `o` lies on.
pub open spec fn line_index(s: Seq<char>, o: int) -> nat
    decreases o,
{
    if o <= 0 {
        0
    } else {
        line_index(s, o - 1) + (if starts_line(s, o) {
            1nat
        } else {
            0nat
        })
    }
}

/// The position where the line holding position `o` of `s` begins.
pub open spec fn line_begin(s: Seq<char>, o: int) -> int
    decreases o,
{
    if o <= 0 {
        0
    } else if starts_line(s, o) {
        o
    } else {
        line_begin(s, o - 1)
    }
}

/// `name:line:column` of position `o` of `s`, both numbers 1-based.
pub open spec fn location_text(name: Seq<char>, s: Seq<char>, o: int) -> Seq<char> {
    name + ":"@ + decimal_text((line_index(s, o) + 1) as nat) + ":"@ + decimal_text(
        (o - line_begin(s, o) + 1) as nat,
    )
}

/// True when a label over `start..end` falls inside a source of `len`
/// characters, so that the report shows the source at its location.
pub open spec fn label_shown(len: int, start: int, end: int) -> bool {
    start <= len && (start == end || end <= len + 1)
}

/// The number of lines a source is split into: one more than the number
/// of line starts after position 0.
pub open spec fn line_count(s: Seq<char>) -> nat {
    line_index(s, s.len() as int) + 1
}

/// True when a label over `start..end` lies on a single line of `s`, so
/// that the report draws it under that line with its text.
pub open spec fn label_inline(s: Seq<char>, start: int, end: int) -> bool {
    &&& 0 <= start <= end <= s.len()
    &&& (start == end || line_index(s, start) == line_index(s, end - 1))
}

/// The word a report of kind `k` is headed with.
pub open spec fn kind_word(k: ReportKindTag) -> Seq<char> {
    match k {
        ReportKindTag::Error => "Error"@,
        ReportKindTag::Warning => "Warning"@,
        ReportKindTag::Advice => "Advice"@,
    }
}

/// The head of a report: `[code] Kind:`.
pub open spec fn header_text(code: Seq<char>, k: ReportKindTag) -> Seq<char> {
    "["@ + code + "] "@ + kind_word(k) + ":"@
}

/// Renders a report with the `ariadne` crate: `Report::build` with the
/// request's kind and `(source_name, start..end)` span, its code and
/// message, one red label with the label text over the same span, written
/// against `source` and read back as UTF-8. The header line always holds
/// `[code] Kind:` (when the code is at least two characters long, as
/// ariadne pads shorter ones) and then the message, unpainted; when the
/// label falls inside the source, the location line holds
/// `source_name:line:column` of `start`, unpainted; when the label lies on
/// one line, the label text is written, unpainted, under that line.
/// Nothing more is promised of the text: ariadne colours it or not
/// depending on the platform and on a process-wide switch of its colouring
/// library. Sources of a billion lines or more are left out: ariadne's
/// line-number width overflows there.
#[verifier::external_body]
fn render_report(req: &ReportRequest, source: &str) -> (r: String)
    requires
        req.start <= req.end,
        line_count(source@) < 1_000_000_000,
    ensures
        r@.len() > 0,
        contains_text(r@, req.message@),
        req.code@.len() >= 2 ==> contains_text(r@, header_text(req.code@, req.kind)),
        label_shown(source@.len() as int, req.start as int, req.end as int) ==> contains_text(
            r@,
            location_text(req.source_name@, source@, req.start as int),
        ),
        label_inline(source@, req.start as int, req.end as int) ==> contains_text(
            r@,
            req.label@,
        ),
{
    let kind = match req.kind {
        ReportKindTag::Error => ReportKind::Error,
        ReportKindTag::Warning => ReportKind::Warning,
        ReportKindTag::Advice => ReportKind::Advice,
    };
    let (name, span) = (req.source_name.as_str(), req.start..req.end);
    let label = Label::new((name, span.clone())).with_message(&req.label).with_color(Color::Red);
    let report = Report::build(kind, (name, span)).with_code(&req.code).with_message(&req.message)
        .with_label(label).finish();
    let mut buf: Vec<u8> = Vec::new();
    let _ = report.write((name, Source::from(source)), &mut buf);
    String::from_utf8_lossy(&buf).into_owned()
}

/// The name a rendered report shows the source under: the file, or
/// `"source"` when there is none.
pub open spec fn source_name_of(d: Diagnostic) -> Seq<char> {
    if d.file@.len() == 0 {
        "source"@
    } else {
        d.file@
    }
}

/// True when a diagnostic can be rendered: when it carries source text,
/// its span end fits a `usize` and the source has fewer than a billion
/// lines.
pub open spec fn renderable(d: Diagnostic) -> bool {
    match d.source {
        Some(src) => d.byte_offset + d.byte_len <= usize::MAX && line_count(src@) < 1_000_000_000,
        None => true,
    }
}

/// What holds of the rendered text `r` of `d`: its message when it carries
/// no source text; otherwise a nonempty text holding the header `[code]
/// Kind:` for the severity (for a code of two or more characters), the
/// message, the `name:line:column` of the span's start when the span falls
/// inside the source, and the severity word as the label when the span
/// lies on one line.
pub open spec fn ariadne_text(d: Diagnostic, r: Seq<char>) -> bool {
    match d.source {
        None => r == d.message@,
        Some(src) => {
            &&& r.len() > 0
            &&& contains_text(r, d.message@)
            &&& d.code.name@.len() >= 2 ==> contains_text(
                r,
                header_text(d.code.name@, report_kind_of(d.severity)),
            )
            &&& label_inline(src@, d.byte_offset as int, d.byte_offset + d.byte_len) ==> contains_text(
                r,
                severity_text(d.severity),
            )
            &&& label_shown(src@.len() as int, d.byte_offset as int, d.byte_offset + d.byte_len)
                ==> contains_text(r, location_text(source_name_of(d), src@, d.byte_offset as int))
        },
    }
}

impl Diagnostic {
    /// What a rendered report of this diagnostic is built from: its kind
    /// by severity, the file (or `"source"` when there is none), the
    /// primary span, the code's name, the message, and the severity word as
    /// the label.
    pub fn report_request(&self) -> (r: ReportRequest)
        requires
            self.byte_offset + self.byte_len <= usize::MAX,
        ensures
            r.kind == report_kind_of(self.severity),
            r.source_name@ == (if self.file@.len() == 0 {
                "source"@
            } else {
                self.file@
            }),
            r.start == self.byte_offset,
            r.end == self.byte_offset + self.byte_len,
            r.code@ == self.code.name@,
            r.message@ == self.message@,
            r.label@ == severity_text(self.severity),
    {
        let kind = match self.severity {
            DiagSeverity::Error | DiagSeverity::Fatal => ReportKindTag::Error,
            DiagSeverity::Warning => ReportKindTag::Warning,
            _ => ReportKindTag::Advice,
        };
        let source_name = if self.file.as_str().is_empty() {
            String::from_str("source")
        } else {
            self.file.clone()
        };
        let span = self.span();
        ReportRequest {
            kind,
            source_name,
            start: span.start,
            end: span.end,
            code: self.code.name.clone(),
            message: self.message.clone(),
            label: String::from_str(severity_label(self.severity)),
        }
    }

    /// Renders this diagnostic with the `ariadne` reporter, with a source
    /// snippet and the span underlined (see [`report_request`](Self::report_request)).
    /// A diagnostic without source text renders as its plain message.
    pub fn to_ariadne_string(&self) -> (r: String)
        requires
            renderable(*self),
        ensures
            ariadne_text(*self, r@),
    {
        match &self.source {
            None => self.message.clone(),
            Some(src) => {
                let req = self.report_request();
                render_report(&req, src.as_str())
            },
        }
    }
}

/// The number of errors and fatals in `s`.
pub open spec fn count_errors(s: Seq<Diagnostic>) -> nat
    decreases s.len(),
{
    if s.len() == 0 {
        0
    } else {
        count_errors(s.drop_last()) + (if severity_is_error(s.last().severity) {
            1nat
        } else {
            0nat
        })
    }
}

/// True when some diagnostic of `s` is an error or fatal.
pub open spec fn any_error(s: Seq<Diagnostic>) -> bool {
    exists|i: int| 0 <= i < s.len() && severity_is_error(#[trigger] s[i].severity)
}

/// A list has an error exactly when its error count is positive.
pub proof fn lemma_has_errors_iff_error_count(s: Seq<Diagnostic>)
    ensures
        any_error(s) <==> count_errors(s) > 0,
    decreases s.len(),
{
    if s.len() > 0 {
        let p = s.drop_last();
        lemma_has_errors_iff_error_count(p);
        if any_error(p) {
            let i = choose|i: int| 0 <= i < p.len() && severity_is_error(#[trigger] p[i].severity);
            assert(s[i] == p[i]);
        }
        if any_error(s) && !severity_is_error(s.last().severity) {
            let i = choose|i: int| 0 <= i < s.len() && severity_is_error(#[trigger] s[i].severity);
            assert(i < s.len() - 1);
            assert(p[i] == s[i]);
        }
        if severity_is_error(s.last().severity) {
            assert(severity_is_error(s[s.len() - 1].severity));
        }
    }
}

/// The error count never exceeds the number of diagnostics.
pub proof fn lemma_error_count_bound(s: Seq<Diagnostic>)
    ensures
        count_errors(s) <= s.len(),
    decreases s.len(),
{
    if s.len() > 0 {
        lemma_error_count_bound(s.drop_last());
    }
}

/// The items and rendered text of a [`Diagnostics`] list.
pub struct DiagnosticsView {
    pub items: Seq<Diagnostic>,
    pub rendered: Seq<char>,
}

/// An owned list of diagnostics, with the fully rendered text a compiler
/// would print for them.
#[derive(Debug)]
pub struct Diagnostics {
    items: Vec<Diagnostic>,
    rendered: String,
}

impl View for Diagnostics {
    type V = DiagnosticsView;

    closed spec fn view(&self) -> DiagnosticsView {
        DiagnosticsView { items: self.items@, rendered: self.rendered@ }
    }
}

impl Default for Diagnostics {
    /// The empty list.
    fn default() -> (r: Diagnostics)
        ensures
            r@.items.len() == 0,
            r@.rendered.len() == 0,
    {
        Diagnostics { items: Vec::new(), rendered: String::new() }
    }
}

impl Clone for Diagnostics {
    /// An equal copy.
    fn clone(&self) -> (r: Diagnostics)
        ensures
            r@ == self@,
    {
        let mut items: Vec<Diagnostic> = Vec::new();
        let mut i: usize = 0;
        while i < self.items.len()
            invariant
                i <= self.items.len(),
                items@ == self.items@.take(i as int),
            decreases self.items.len() - i,
        {
            items.push(self.items[i].clone());
            i = i + 1;
            proof {
                assert(items@ =~= self.items@.take(i as int));
            }
        }
        proof {
            assert(self.items@.take(self.items.len() as int) =~= self.items@);
        }
        Diagnostics { items, rendered: self.rendered.clone() }
    }
}

/// The texts of `parts`, one after another.
pub open spec fn joined(parts: Seq<Seq<char>>) -> Seq<char>
    decreases parts.len(),
{
    if parts.len() == 0 {
        Seq::empty()
    } else {
        joined(parts.drop_last()) + parts.last()
    }
}

impl Diagnostics {
    /// A list of `items` (in report order) whose rendered text is
    /// `rendered`.
    pub fn new(items: Vec<Diagnostic>, rendered: String) -> (r: Diagnostics)
        ensures
            r@.items == items@,
            r@.rendered == rendered@,
    {
        Diagnostics { items, rendered }
    }

    /// The diagnostics, in report order.
    pub fn items(&self) -> (r: &[Diagnostic])
        ensures
            r@ == self@.items,
    {
        self.items.as_slice()
    }

    /// The number of diagnostics.
    pub fn len(&self) -> (r: usize)
        ensures
            r == self@.items.len(),
    {
        self.items.len()
    }

    /// True if any diagnostic is an error or fatal.
    pub fn has_errors(&self) -> (r: bool)
        ensures
            r == any_error(self@.items),
    {
        let mut i: usize = 0;
        while i < self.items.len()
            invariant
                i <= self.items.len(),
                forall|k: int| 0 <= k < i ==> !severity_is_error(#[trigger] self.items@[k].severity),
            decreases self.items.len() - i,
        {
            if self.items[i].is_error() {
                return true;
            }
            i = i + 1;
        }
        false
    }

    /// The number of error and fatal diagnostics.
    pub fn error_count(&self) -> (r: usize)
        ensures
            r == count_errors(self@.items),
    {
        let mut n: usize = 0;
        let mut i: usize = 0;
        while i < self.items.len()
            invariant
                i <= self.items.len(),
                n == count_errors(self.items@.take(i as int)),
            decreases self.items.len() - i,
        {
            proof {
                assert(self.items@.take(i + 1).drop_last() =~= self.items@.take(i as int));
                lemma_error_count_bound(self.items@.take(i as int));
            }
            if self.items[i].is_error() {
                n = n + 1;
            }
            i = i + 1;
        }
        proof {
            assert(self.items@.take(self.items.len() as int) =~= self.items@);
        }
        n
    }

    /// The compiler's own rendered text for the whole list, ready to print.
    pub fn rendered(&self) -> (r: &str)
        ensures
            r@ == self@.rendered,
    {
        self.rendered.as_str()
    }

    /// Consumes the list, yielding the owned diagnostics.
    pub fn into_items(self) -> (r: Vec<Diagnostic>)
        ensures
            r@ == self@.items,
    {
        self.items
    }

    /// Every diagnostic rendered with [`Diagnostic::to_ariadne_string`],
    /// concatenated in order: the text is made of one part per diagnostic,
    /// each part what [`ariadne_text`] says of that diagnostic, so every
    /// message occurs in it, in order.
    pub fn to_ariadne_string(&self) -> (r: String)
        requires
            forall|i: int| 0 <= i < self@.items.len() ==> renderable(#[trigger] self@.items[i]),
        ensures
            exists|parts: Seq<Seq<char>>|
                {
                    &&& parts.len() == self@.items.len()
                    &&& r@ == joined(parts)
                    &&& forall|i: int|
                        0 <= i < parts.len() ==> ariadne_text(self@.items[i], #[trigger] parts[i])
                },
    {
        let mut out = String::new();
        let ghost mut parts: Seq<Seq<char>> = Seq::empty();
        let mut i: usize = 0;
        while i < self.items.len()
            invariant
                i <= self.items.len(),
                forall|k: int| 0 <= k < self@.items.len() ==> renderable(#[trigger] self@.items[k]),
                parts.len() == i,
                out@ == joined(parts),
                forall|k: int| 0 <= k < i ==> ariadne_text(self@.items[k], #[trigger] parts[k]),
            decreases self.items.len() - i,
        {
            let part = self.items[i].to_ariadne_string();
            out.append(part.as_str());
            proof {
                let old_parts = parts;
                parts = parts.push(part@);
                assert(parts.drop_last() =~= old_parts);
            }
            i = i + 1;
        }
        proof {
            assert(parts.len() == self@.items.len());
        }
        out
    }
}

/// The errors and fatals of `s`, in order.
pub open spec fn errors_only(s: Seq<Diagnostic>) -> Seq<Diagnostic>
    decreases s.len(),
{
    if s.len() == 0 {
        Seq::empty()
    } else if severity_is_error(s.last().severity) {
        errors_only(s.drop_last()).push(s.last())
    } else {
        errors_only(s.drop_last())
    }
}

/// Keeping only the errors keeps exactly as many diagnostics as the error
/// count, each of them an error.
pub proof fn lemma_errors_only(s: Seq<Diagnostic>)
    ensures
        errors_only(s).len() == count_errors(s),
        forall|i: int| 0 <= i < errors_only(s).len() ==> severity_is_error(#[trigger] errors_only(s)[i].severity),
    decreases s.len(),
{
    if s.len() > 0 {
        lemma_errors_only(s.drop_last());
    }
}

/// A parse-or-elaboration failure: the error diagnostics and the
/// compiler's rendered text.
#[derive(Debug)]
pub struct CompileErrors {
    /// The error and fatal diagnostics.
    pub diagnostics: Vec<Diagnostic>,
    /// The compiler's rendered text.
    pub rendered: String,
}

impl Clone for CompileErrors {
    /// An equal copy.
    fn clone(&self) -> (r: CompileErrors)
        ensures
            r.diagnostics@ == self.diagnostics@,
            r.rendered@ == self.rendered@,
    {
        let mut diagnostics: Vec<Diagnostic> = Vec::new();
        let mut i: usize = 0;
        while i < self.diagnostics.len()
            invariant
                i <= self.diagnostics.len(),
                diagnostics@ == self.diagnostics@.take(i as int),
            decreases self.diagnostics.len() - i,
        {
            diagnostics.push(self.diagnostics[i].clone());
            i = i + 1;
            proof {
                assert(diagnostics@ =~= self.diagnostics@.take(i as int));
            }
        }
        proof {
            assert(self.diagnostics@.take(self.diagnostics.len() as int) =~= self.diagnostics@);
        }
        CompileErrors { diagnostics, rendered: self.rendered.clone() }
    }
}

impl CompileErrors {
    /// The failure as text: the compiler's rendered text.
    pub fn to_string(&self) -> (r: String)
        ensures
            r@ == self.rendered@,
    {
        self.rendered.clone()
    }
}

impl Diagnostics {
    /// `Err` with the error and fatal diagnostics (in order) and the
    /// rendered text when the list has any error, so that callers wanting
    /// "compile or fail" can use `?`; `Ok(())` otherwise.
    pub fn into_result(&self) -> (r: Result<(), CompileErrors>)
        ensures
            r is Ok <==> !any_error(self@.items),
            r matches Err(e) ==> e.diagnostics@ == errors_only(self@.items) && e.rendered@
                == self@.rendered,
    {
        if !self.has_errors() {
            return Ok(());
        }
        let mut diagnostics: Vec<Diagnostic> = Vec::new();
        let mut i: usize = 0;
        while i < self.items.len()
            invariant
                i <= self.items.len(),
                diagnostics@ == errors_only(self.items@.take(i as int)),
            decreases self.items.len() - i,
        {
            proof {
                assert(self.items@.take(i + 1).drop_last() =~= self.items@.take(i as int));
            }
            if self.items[i].is_error() {
                diagnostics.push(self.items[i].clone());
            }
            i = i + 1;
        }
        proof {
            assert(self.items@.take(self.items.len() as int) =~= self.items@);
        }
        Err(CompileErrors { diagnostics, rendered: self.rendered.clone() })
    }
}

/// One diagnostic as a compiler reports it: code, severity and message,
/// the location (`buffer` 0 when it is in no file), the file position the
/// source manager gives for it, and the first highlighted range when there
/// is one.
pub struct RawDiagnostic {
    /// The diagnostic's code.
    pub code: DiagCode,
    /// The effective severity.
    pub severity: DiagSeverity,
    /// The fully formatted message.
    pub message: String,
    /// The source buffer of the location; 0 for none.
    pub buffer: u32,
    /// The byte offset of the location within its buffer.
    pub offset: u32,
    /// The file name of the location.
    pub file: String,
    /// The 1-based line of the location.
    pub line: usize,
    /// The 1-based column of the location.
    pub column: usize,
    /// The start and end offsets of the first highlighted range, if any.
    pub first_range: Option<(u32, u32)>,
}

/// The text of one source buffer.
pub struct BufferText {
    /// The buffer ID.
    pub buffer: u32,
    /// The buffer's text.
    pub text: String,
}

/// The primary span `(offset, length)` of a diagnostic: its first
/// highlighted range, at least one byte long, or else a one-byte point at
/// its location.
pub open spec fn primary_span(offset: u32, first_range: Option<(u32, u32)>) -> (int, int) {
    match first_range {
        Some((start, end)) => (start as int, if end > start {
            end - start
        } else {
            1
        }),
        None => (offset as int, 1),
    }
}

/// A primary span is always at least one byte wide.
pub proof fn lemma_primary_span_nonempty(offset: u32, first_range: Option<(u32, u32)>)
    ensures
        primary_span(offset, first_range).1 >= 1,
{
}

/// The text of buffer `buffer` in `sources`: the first entry for it.
pub open spec fn lookup_text(sources: Seq<BufferText>, buffer: u32) -> Option<Seq<char>>
    decreases sources.len(),
{
    if sources.len() == 0 {
        None
    } else if sources[0].buffer == buffer {
        Some(sources[0].text@)
    } else {
        lookup_text(sources.drop_first(), buffer)
    }
}

/// The source text a diagnostic carries: the nonempty text of its buffer,
/// when it is in a buffer and a source manager is present.
pub open spec fn expected_source(raw: RawDiagnostic, sources: Seq<BufferText>, has_source_manager: bool) -> Option<Seq<char>> {
    if raw.buffer != 0 && has_source_manager {
        match lookup_text(sources, raw.buffer) {
            Some(t) => if t.len() == 0 {
                None
            } else {
                Some(t)
            },
            None => None,
        }
    } else {
        None
    }
}

/// The view of an optional string.
pub open spec fn text_view(o: Option<String>) -> Option<Seq<char>> {
    match o {
        Some(t) => Some(t@),
        None => None,
    }
}

/// True when `d` is the diagnostic assembled from `raw`: the same code,
/// severity and message; the file position only when the location is in a
/// buffer (empty file, line and column 0 otherwise); the primary span; and
/// the expected source text.
pub open spec fn assembled_from(
    d: Diagnostic,
    raw: RawDiagnostic,
    sources: Seq<BufferText>,
    has_source_manager: bool,
) -> bool {
    &&& d.code == raw.code
    &&& d.severity == raw.severity
    &&& d.message@ == raw.message@
    &&& d.file@ == (if raw.buffer == 0 {
        Seq::empty()
    } else {
        raw.file@
    })
    &&& d.line == (if raw.buffer == 0 {
        0
    } else {
        raw.line
    })
    &&& d.column == (if raw.buffer == 0 {
        0
    } else {
        raw.column
    })
    &&& (d.byte_offset as int, d.byte_len as int) == primary_span(raw.offset, raw.first_range)
    &&& text_view(d.source) == expected_source(raw, sources, has_source_manager)
}

/// The first entry of `sources` for `buffer`.
fn find_text(sources: &[BufferText], buffer: u32) -> (r: Option<&String>)
    ensures
        match r {
            Some(t) => lookup_text(sources@, buffer) == Some(t@),
            None => lookup_text(sources@, buffer) is None,
        },
{
    let mut i: usize = 0;
    proof {
        assert(sources@.subrange(0, sources@.len() as int) =~= sources@);
    }
    while i < sources.len()
        invariant
            i <= sources.len(),
            lookup_text(sources@, buffer) == lookup_text(
                sources@.subrange(i as int, sources@.len() as int),
                buffer,
            ),
        decreases sources.len() - i,
    {
        proof {
            let rest = sources@.subrange(i as int, sources@.len() as int);
            assert(rest.drop_first() =~= sources@.subrange(i + 1, sources@.len() as int));
            assert(rest[0] == sources@[i as int]);
        }
        if sources[i].buffer == buffer {
            return Some(&sources[i].text);
        }
        i = i + 1;
    }
    proof {
        assert(sources@.subrange(i as int, sources@.len() as int).len() == 0);
    }
    None
}

/// Assembles one diagnostic from its raw record.
fn assemble(raw: &RawDiagnostic, sources: &[BufferText], has_source_manager: bool) -> (d: Diagnostic)
    ensures
        assembled_from(d, *raw, sources@, has_source_manager),
{
    let in_file = raw.buffer != 0;
    let file = if in_file {
        raw.file.clone()
    } else {
        String::new()
    };
    let line = if in_file {
        raw.line
    } else {
        0
    };
    let column = if in_file {
        raw.column
    } else {
        0
    };
    let (byte_offset, byte_len) = match raw.first_range {
        Some((start, end)) => (start as usize, if end > start {
            (end - start) as usize
        } else {
            1
        }),
        None => (raw.offset as usize, 1),
    };
    let source = if in_file && has_source_manager {
        match find_text(sources, raw.buffer) {
            Some(t) => if t.as_str().is_empty() {
                None
            } else {
                Some(t.clone())
            },
            None => None,
        }
    } else {
        None
    };
    Diagnostic {
        code: raw.code.clone(),
        severity: raw.severity,
        message: raw.message.clone(),
        line,
        column,
        file,
        byte_offset,
        byte_len,
        source,
    }
}

/// Assembles the owned diagnostic list from the raw records a compiler
/// reported (in report order), the texts of their source buffers, whether a
/// source manager was present, and the compiler's rendered text.
pub fn collect_diagnostics(
    raws: &[RawDiagnostic],
    sources: &[BufferText],
    has_source_manager: bool,
    rendered: String,
) -> (r: Diagnostics)
    ensures
        r@.items.len() == raws@.len(),
        forall|i: int|
            0 <= i < raws@.len() ==> assembled_from(
                #[trigger] r@.items[i],
                raws@[i],
                sources@,
                has_source_manager,
            ),
        r@.rendered == rendered@,
{
    let mut items: Vec<Diagnostic> = Vec::new();
    let mut i: usize = 0;
    while i < raws.len()
        invariant
            i <= raws.len(),
            items@.len() == i,
            forall|k: int|
                0 <= k < i ==> assembled_from(
                    #[trigger] items@[k],
                    raws@[k],
                    sources@,
                    has_source_manager,
                ),
        decreases raws.len() - i,
    {
        let d = assemble(&raws[i], sources, has_source_manager);
        items.push(d);
        i = i + 1;
    }
    Diagnostics::new(items, rendered)
}

} // verus!
