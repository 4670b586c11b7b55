use vstd::prelude::*;
use crate::text::{push_str, str_eq, string_of};

verus! {

/// The protocol type name under which a value type is advertised.
pub trait UciOption {
    spec fn advertised_type() -> Seq<char>;

    fn uci_type() -> (r: &'static str)
        ensures
            r@ == Self::advertised_type(),
    ;
}

impl UciOption for u8 {
    open spec fn advertised_type() -> Seq<char> {
        "spin"@
    }

    fn uci_type() -> (r: &'static str) {
        "spin"
    }
}

impl UciOption for u16 {
    open spec fn advertised_type() -> Seq<char> {
        "spin"@
    }

    fn uci_type() -> (r: &'static str) {
        "spin"
    }
}

impl UciOption for bool {
    open spec fn advertised_type() -> Seq<char> {
        "check"@
    }

    fn uci_type() -> (r: &'static str) {
        "check"
    }
}

impl UciOption for String {
    open spec fn advertised_type() -> Seq<char> {
        "string"@
    }

    fn uci_type() -> (r: &'static str) {
        "string"
    }
}

pub const THREADS_MIN: u64 = 1;

pub const THREADS_MAX: u64 = 256;

/// The session's option values.
#[derive(Debug, Clone)]
pub struct Options {
    /// Worker-count hint, advertised with bounds 1 to 256.
    pub threads: u16,
    pub debug: bool,
    /// Ask the oracle for its rationale and echo it.
    pub output_reasoning: bool,
    pub apimodel: String,
    pub apibaseurl: String,
    pub apikey: String,
    /// How many extra oracle attempts follow a failed first one.
    pub apimaxtries: u8,
    /// Describe the position to the oracle as a readable digest rather than raw.
    pub fenasmd: bool,
    pub additional_instructions: String,
    /// A file whose contents replace `additional_instructions` when set.
    pub additional_instructions_file: String,
}

/// The option values as plain mathematical values.
pub struct OptionsModel {
    pub threads: u16,
    pub debug: bool,
    pub output_reasoning: bool,
    pub apimodel: Seq<char>,
    pub apibaseurl: Seq<char>,
    pub apikey: Seq<char>,
    pub apimaxtries: u8,
    pub fenasmd: bool,
    pub additional_instructions: Seq<char>,
    pub additional_instructions_file: Seq<char>,
}

impl View for Options {
    type V = OptionsModel;

    open spec fn view(&self) -> OptionsModel {
        OptionsModel {
            threads: self.threads,
            debug: self.debug,
            output_reasoning: self.output_reasoning,
            apimodel: self.apimodel@,
            apibaseurl: self.apibaseurl@,
            apikey: self.apikey@,
            apimaxtries: self.apimaxtries,
            fenasmd: self.fenasmd,
            additional_instructions: self.additional_instructions@,
            additional_instructions_file: self.additional_instructions_file@,
        }
    }
}

pub open spec fn default_model() -> OptionsModel {
    OptionsModel {
        threads: 1,
        debug: false,
        output_reasoning: false,
        apimodel: "openai/gpt-oss-20b"@,
        apibaseurl: "<unset>"@,
        apikey: "<unset>"@,
        apimaxtries: 3,
        fenasmd: false,
        additional_instructions: Seq::empty(),
        additional_instructions_file: Seq::empty(),
    }
}

impl Default for Options {
    fn default() -> (r: Options)
        ensures
            r@ == default_model(),
    {
        Options {
            threads: 1,
            debug: false,
            output_reasoning: false,
            apimodel: String::from_str("openai/gpt-oss-20b"),
            apibaseurl: String::from_str("<unset>"),
            apikey: String::from_str("<unset>"),
            apimaxtries: 3,
            fenasmd: false,
            additional_instructions: String::new(),
            additional_instructions_file: String::new(),
        }
    }
}

pub open spec fn is_digit(c: char) -> bool {
    '0' <= c && c <= '9'
}

/// The digits of `d` read left to right up to `n`, stopping at the first non-digit or
/// at the first prefix whose value exceeds `max`, as std's unsigned parsing does.
pub open spec fn uint_scan(d: Seq<char>, n: int, max: int) -> Result<int, Seq<char>>
    decreases n,
{
    if n <= 0 {
        Ok(0)
    } else {
        match uint_scan(d, n - 1, max) {
            Err(e) => Err(e),
            Ok(v) => if !is_digit(d[n - 1]) {
                Err("invalid digit found in string"@)
            } else if v * 10 + (d[n - 1] as int - 48) > max {
                Err("number too large to fit in target type"@)
            } else {
                Ok(v * 10 + (d[n - 1] as int - 48))
            },
        }
    }
}

/// An unsigned decimal number up to `max`, with an optional leading `+`.
pub open spec fn parse_uint(s: Seq<char>, max: int) -> Result<int, Seq<char>> {
    if s.len() == 0 {
        Err("cannot parse integer from empty string"@)
    } else {
        let d = if s[0] == '+' {
            s.drop_first()
        } else {
            s
        };
        if d.len() == 0 {
            Err("invalid digit found in string"@)
        } else {
            uint_scan(d, d.len() as int, max)
        }
    }
}

pub open spec fn parse_flag(s: Seq<char>) -> Result<bool, Seq<char>> {
    if s == "true"@ {
        Ok(true)
    } else if s == "false"@ {
        Ok(false)
    } else {
        Err("provided string was not `true` or `false`"@)
    }
}

/// The option values after setting `name` to the text `value`, or the reason it is refused.
pub open spec fn apply_option(m: OptionsModel, name: Seq<char>, value: Seq<char>) -> Result<
    OptionsModel,
    Seq<char>,
> {
    if name == "Threads"@ {
        match parse_uint(value, 65535) {
            Err(e) => Err(e),
            Ok(n) => if THREADS_MIN <= n && n <= THREADS_MAX {
                Ok(OptionsModel { threads: n as u16, ..m })
            } else {
                Err("number out of range 1..=256"@)
            },
        }
    } else if name == "Debug"@ {
        match parse_flag(value) {
            Err(e) => Err(e),
            Ok(b) => Ok(OptionsModel { debug: b, ..m }),
        }
    } else if name == "OutputReasoning"@ {
        match parse_flag(value) {
            Err(e) => Err(e),
            Ok(b) => Ok(OptionsModel { output_reasoning: b, ..m }),
        }
    } else if name == "APIModel"@ {
        Ok(OptionsModel { apimodel: value, ..m })
    } else if name == "APIBaseURL"@ {
        Ok(OptionsModel { apibaseurl: value, ..m })
    } else if name == "APIKey"@ {
        Ok(OptionsModel { apikey: value, ..m })
    } else if name == "APIMaxTries"@ {
        match parse_uint(value, 255) {
            Err(e) => Err(e),
            Ok(n) => Ok(OptionsModel { apimaxtries: n as u8, ..m }),
        }
    } else if name == "FenAsMarkdown"@ {
        match parse_flag(value) {
            Err(e) => Err(e),
            Ok(b) => Ok(OptionsModel { fenasmd: b, ..m }),
        }
    } else if name == "AdditionalInstructions"@ {
        Ok(OptionsModel { additional_instructions: value, ..m })
    } else if name == "AdditionalInstructionsFile"@ {
        Ok(OptionsModel { additional_instructions_file: value, ..m })
    } else {
        Err("Unknown option: "@ + name)
    }
}

/// One advertisement line: name, type, default, then the bounds text if any.
pub open spec fn advert_line(
    name: Seq<char>,
    kind: Seq<char>,
    default: Seq<char>,
    bounds: Seq<char>,
) -> Seq<char> {
    "option name "@ + name + " type "@ + kind + " default "@ + default + bounds
}

/// The advertisement lines, one per option in declaration order, each with its
/// default value and, for `Threads`, its bounds.
pub open spec fn advertisement() -> Seq<Seq<char>> {
    seq![
        advert_line("Threads"@, "spin"@, "1"@, " min 1 max 256"@),
        advert_line("Debug"@, "check"@, "false"@, ""@),
        advert_line("OutputReasoning"@, "check"@, "false"@, ""@),
        advert_line("APIModel"@, "string"@, "openai/gpt-oss-20b"@, ""@),
        advert_line("APIBaseURL"@, "string"@, "<unset>"@, ""@),
        advert_line("APIKey"@, "string"@, "<unset>"@, ""@),
        advert_line("APIMaxTries"@, "spin"@, "3"@, ""@),
        advert_line("FenAsMarkdown"@, "check"@, "false"@, ""@),
        advert_line("AdditionalInstructions"@, "string"@, ""@, ""@),
        advert_line("AdditionalInstructionsFile"@, "string"@, ""@, ""@),
    ]
}

/// Parses an unsigned decimal number no larger than `max`.
pub fn parse_uint_text(s: &str, max: u64) -> (r: Result<u64, &'static str>)
    requires
        max <= 65535,
    ensures
        match r {
            Ok(n) => parse_uint(s@, max as int) == Ok::<int, Seq<char>>(n as int),
            Err(e) => parse_uint(s@, max as int) == Err::<int, Seq<char>>(e@),
        },
{
    let n = s.unicode_len();
    if n == 0 {
        return Err("cannot parse integer from empty string");
    }
    let start: usize = if s.get_char(0) == '+' {
        1
    } else {
        0
    };
    if start == n {
        return Err("invalid digit found in string");
    }
    let ghost d = if s@[0] == '+' {
        s@.drop_first()
    } else {
        s@
    };
    assert(d =~= s@.subrange(start as int, n as int));
    let mut v: u64 = 0;
    let mut i: usize = start;
    while i < n
        invariant
            n == s@.len(),
            start <= i <= n,
            start < n,
            max <= 65535,
            d == s@.subrange(start as int, n as int),
            parse_uint(s@, max as int) == uint_scan(d, d.len() as int, max as int),
            uint_scan(d, i - start, max as int) == Ok::<int, Seq<char>>(v as int),
            v <= max,
        decreases n - i,
    {
        let c = s.get_char(i);
        assert(d[i - start] == c);
        if !('0' <= c && c <= '9') {
            assert(uint_scan(d, (i - start + 1) as int, max as int) == Err::<int, Seq<char>>(
                "invalid digit found in string"@,
            ));
            proof {
                lemma_uint_scan_err_sticks(d, (i - start + 1) as int, d.len() as int, max as int);
            }
            return Err("invalid digit found in string");
        }
        let next = v * 10 + (c as u32 - 48) as u64;
        if next > max {
            assert(uint_scan(d, (i - start + 1) as int, max as int) == Err::<int, Seq<char>>(
                "number too large to fit in target type"@,
            ));
            proof {
                lemma_uint_scan_err_sticks(d, (i - start + 1) as int, d.len() as int, max as int);
            }
            return Err("number too large to fit in target type");
        }
        v = next;
        i = i + 1;
    }
    assert(i - start == d.len());
    Ok(v)
}

proof fn lemma_uint_scan_err_sticks(d: Seq<char>, i: int, j: int, max: int)
    requires
        0 <= i <= j,
        uint_scan(d, i, max) is Err,
    ensures
        uint_scan(d, j, max) == uint_scan(d, i, max),
    decreases j - i,
{
    if j > i {
        lemma_uint_scan_err_sticks(d, i, j - 1, max);
    }
}

pub fn parse_flag_text(s: &str) -> (r: Result<bool, &'static str>)
    ensures
        match r {
            Ok(b) => parse_flag(s@) == Ok::<bool, Seq<char>>(b),
            Err(e) => parse_flag(s@) == Err::<bool, Seq<char>>(e@),
        },
{
    if str_eq(s, "true") {
        Ok(true)
    } else if str_eq(s, "false") {
        Ok(false)
    } else {
        Err("provided string was not `true` or `false`")
    }
}

fn option_line(name: &str, kind: &str, default: &str, bounds: &str) -> (r: String)
    ensures
        r@ == advert_line(name@, kind@, default@, bounds@),
{
    let mut v: Vec<char> = Vec::new();
    push_str(&mut v, "option name ");
    push_str(&mut v, name);
    push_str(&mut v, " type ");
    push_str(&mut v, kind);
    push_str(&mut v, " default ");
    push_str(&mut v, default);
    push_str(&mut v, bounds);
    string_of(&v)
}

impl Options {
    /// The option advertisement, one line per option in a fixed order. Each line
    /// shows the option's default, so the lines do not depend on the current values.
    pub fn format_uci_options(&self) -> (r: Vec<String>)
        ensures
            r@.map_values(|l: String| l@) == advertisement(),
    {
        let mut r: Vec<String> = Vec::new();
        r.push(option_line("Threads", <u16 as UciOption>::uci_type(), "1", " min 1 max 256"));
        r.push(option_line("Debug", <bool as UciOption>::uci_type(), "false", ""));
        r.push(option_line("OutputReasoning", <bool as UciOption>::uci_type(), "false", ""));
        r.push(option_line("APIModel", <String as UciOption>::uci_type(), "openai/gpt-oss-20b", ""));
        r.push(option_line("APIBaseURL", <String as UciOption>::uci_type(), "<unset>", ""));
        r.push(option_line("APIKey", <String as UciOption>::uci_type(), "<unset>", ""));
        r.push(option_line("APIMaxTries", <u8 as UciOption>::uci_type(), "3", ""));
        r.push(option_line("FenAsMarkdown", <bool as UciOption>::uci_type(), "false", ""));
        r.push(option_line("AdditionalInstructions", <String as UciOption>::uci_type(), "", ""));
        r.push(option_line("AdditionalInstructionsFile", <String as UciOption>::uci_type(), "", ""));
        assert(r@.map_values(|l: String| l@) =~= advertisement());
        r
    }

    /// Sets the option called `name` from the text `value`. An unknown name or a
    /// value that does not parse (or lies outside the option's bounds) is refused
    /// and leaves every option as it was.
    pub fn set_by_name_value(&mut self, name: &str, value: &str) -> (r: Result<(), String>)
        ensures
            match apply_option(old(self)@, name@, value@) {
                Ok(m) => r is Ok && final(self)@ == m,
                Err(e) => r is Err && r->Err_0@ == e && final(self)@ == old(self)@,
            },
    {
        if str_eq(name, "Threads") {
            match parse_uint_text(value, 65535) {
                Err(e) => Err(String::from_str(e)),
                Ok(n) => if THREADS_MIN <= n && n <= THREADS_MAX {
                    self.threads = n as u16;
                    Ok(())
                } else {
                    Err(String::from_str("number out of range 1..=256"))
                },
            }
        } else if str_eq(name, "Debug") {
            match parse_flag_text(value) {
                Err(e) => Err(String::from_str(e)),
                Ok(b) => {
                    self.debug = b;
                    Ok(())
                },
            }
        } else if str_eq(name, "OutputReasoning") {
            match parse_flag_text(value) {
                Err(e) => Err(String::from_str(e)),
                Ok(b) => {
                    self.output_reasoning = b;
                    Ok(())
                },
            }
        } else if str_eq(name, "APIModel") {
            self.apimodel = String::from_str(value);
            Ok(())
        } else if str_eq(name, "APIBaseURL") {
            self.apibaseurl = String::from_str(value);
            Ok(())
        } else if str_eq(name, "APIKey") {
            self.apikey = String::from_str(value);
            Ok(())
        } else if str_eq(name, "APIMaxTries") {
            match parse_uint_text(value, 255) {
                Err(e) => Err(String::from_str(e)),
                Ok(n) => {
                    self.apimaxtries = n as u8;
                    Ok(())
                },
            }
        } else if str_eq(name, "FenAsMarkdown") {
            match parse_flag_text(value) {
                Err(e) => Err(String::from_str(e)),
                Ok(b) => {
                    self.fenasmd = b;
                    Ok(())
                },
            }
        } else if str_eq(name, "AdditionalInstructions") {
            self.additional_instructions = String::from_str(value);
            Ok(())
        } else if str_eq(name, "AdditionalInstructionsFile") {
            self.additional_instructions_file = String::from_str(value);
            Ok(())
        } else {
            let mut v: Vec<char> = Vec::new();
            push_str(&mut v, "Unknown option: ");
            push_str(&mut v, name);
            Err(string_of(&v))
        }
    }
}

} // verus!
