use vstd::prelude::*;

verus! {

/// The character sequence that `str::to_lowercase` produces for `s`: the
/// Unicode lowercase mapping, fixed by the input characters alone.
pub uninterp spec fn lower_of(s: Seq<char>) -> Seq<char>;

/// Relies on `str::to_lowercase`: its result is the Unicode lowercase
/// mapping of the input, a function of the input characters alone.
#[verifier::external_body]
pub(crate) fn lowercase(s: &str) -> (r: String)
    ensures
        r@ == lower_of(s@),
{
    s.to_lowercase()
}

/// The text that `humansize::format_size` renders for `n` bytes under its
/// `BINARY` options (KiB/MiB units): fixed by `n` alone.
pub uninterp spec fn human_size_of(n: u64) -> Seq<char>;

/// Relies on `humansize::format_size` with `humansize::BINARY`: a pure
/// rendering of the byte count into binary-prefixed units, a function of
/// `n` alone.
#[verifier::external_body]
pub(crate) fn human_size(n: u64) -> (r: String)
    ensures
        r@ == human_size_of(n),
{
    humansize::format_size(n, humansize::BINARY)
}

/// Calendar fields of one instant, read in the machine's local time zone.
pub struct TimeParts {
    pub year: i32,
    pub month: u8,
    pub day: u8,
    pub hour: u8,
    pub minute: u8,
    pub second: u8,
}

impl TimeParts {
    /// Calendar ranges of the non-year fields.
    pub open spec fn wf(self) -> bool {
        &&& 1 <= self.month <= 12
        &&& 1 <= self.day <= 31
        &&& self.hour <= 23
        &&& self.minute <= 59
        &&& self.second <= 59
    }
}

/// Relies on chrono: `DateTime::from_timestamp` turns seconds since the
/// Unix epoch into an instant (`None` when outside chrono's range),
/// `with_timezone` moves it to the machine's local zone, and the
/// `Datelike`/`Timelike` accessors read its calendar fields, which chrono
/// documents to lie in the usual calendar ranges. The outcome depends on
/// the machine's time zone, so nothing beyond those ranges is claimed.
#[verifier::external_body]
pub(crate) fn local_time_parts(secs: i64) -> (r: Option<TimeParts>)
    ensures
        r matches Some(p) ==> p.wf(),
{
    let dt = chrono::DateTime::from_timestamp(secs, 0)?.with_timezone(&chrono::Local);
    Some(TimeParts {
        year: chrono::Datelike::year(&dt),
        month: chrono::Datelike::month(&dt) as u8,
        day: chrono::Datelike::day(&dt) as u8,
        hour: chrono::Timelike::hour(&dt) as u8,
        minute: chrono::Timelike::minute(&dt) as u8,
        second: chrono::Timelike::second(&dt) as u8,
    })
}

} // verus!
