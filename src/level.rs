use vstd::prelude::*;

verus! {

/// Severity of a log entry, from the most severe (`Error`) to the least (`Trace`).
#[derive(Clone, Copy, Debug, PartialEq, Eq, Structural)]
pub enum LogLevel {
    Error,
    Warning,
    Info,
    Debug,
    Trace,
}

/// Colour in which a console formatter paints a level's name.
#[derive(Clone, Copy, Debug, PartialEq, Eq, Structural)]
pub enum TermColor {
    Red,
    Yellow,
    Green,
    Blue,
    Magenta,
}

impl LogLevel {
    /// Position in the severity order: 0 is the most severe.
    pub open spec fn severity(self) -> nat {
        match self {
            LogLevel::Error => 0,
            LogLevel::Warning => 1,
            LogLevel::Info => 2,
            LogLevel::Debug => 3,
            LogLevel::Trace => 4,
        }
    }

    /// `self` is at least as severe as `other`.
    pub open spec fn at_least(self, other: LogLevel) -> bool {
        self.severity() <= other.severity()
    }

    /// The name a formatter writes for this level.
    pub open spec fn name_spec(self) -> Seq<char> {
        match self {
            LogLevel::Error => seq!['E', 'r', 'r', 'o', 'r'],
            LogLevel::Warning => seq!['W', 'a', 'r', 'n', 'i', 'n', 'g'],
            LogLevel::Info => seq!['I', 'n', 'f', 'o'],
            LogLevel::Debug => seq!['D', 'e', 'b', 'u', 'g'],
            LogLevel::Trace => seq!['T', 'r', 'a', 'c', 'e'],
        }
    }

    pub open spec fn color_spec(self) -> TermColor {
        match self {
            LogLevel::Error => TermColor::Red,
            LogLevel::Warning => TermColor::Yellow,
            LogLevel::Info => TermColor::Green,
            LogLevel::Debug => TermColor::Blue,
            LogLevel::Trace => TermColor::Magenta,
        }
    }

    pub fn rank(&self) -> (r: u8)
        ensures
            r as nat == self.severity(),
    {
        match self {
            LogLevel::Error => 0,
            LogLevel::Warning => 1,
            LogLevel::Info => 2,
            LogLevel::Debug => 3,
            LogLevel::Trace => 4,
        }
    }

    pub fn is_at_least(&self, other: LogLevel) -> (r: bool)
        ensures
            r == self.at_least(other),
    {
        self.rank() <= other.rank()
    }

    pub fn name(&self) -> (r: String)
        ensures
            r@ == self.name_spec(),
    {
        let r = match self {
            LogLevel::Error => String::from_str("Error"),
            LogLevel::Warning => String::from_str("Warning"),
            LogLevel::Info => String::from_str("Info"),
            LogLevel::Debug => String::from_str("Debug"),
            LogLevel::Trace => String::from_str("Trace"),
        };
        proof {
            reveal_strlit("Error");
            reveal_strlit("Warning");
            reveal_strlit("Info");
            reveal_strlit("Debug");
            reveal_strlit("Trace");
        }
        r
    }

    pub fn color(&self) -> (r: TermColor)
        ensures
            r == self.color_spec(),
    {
        match self {
            LogLevel::Error => TermColor::Red,
            LogLevel::Warning => TermColor::Yellow,
            LogLevel::Info => TermColor::Green,
            LogLevel::Debug => TermColor::Blue,
            LogLevel::Trace => TermColor::Magenta,
        }
    }
}

/// Enablement is exactly the severity order: a level passes a threshold
/// iff it is at least as severe, and every level more severe than one that
/// passes passes too.
pub proof fn lemma_threshold_order(level: LogLevel, more: LogLevel, threshold: LogLevel)
    ensures
        level.at_least(threshold) <==> level.severity() <= threshold.severity(),
        level.at_least(threshold) && more.at_least(level) ==> more.at_least(threshold),
        level.at_least(threshold) || threshold.at_least(level),
        level.at_least(threshold) && threshold.at_least(level) ==> level == threshold,
{
}

} // verus!
