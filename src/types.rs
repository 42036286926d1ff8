use vstd::prelude::*;

verus! {

/// The atom that marks the conventions layered on top of plain terms.
pub const BERT_LABEL: &'static str = "bert";

/// The version byte that starts every message.
pub const ETF_VERSION: u8 = 131;

/// The tag byte that starts the encoding of each term.
#[derive(Debug, Clone, Copy, PartialEq, Eq, Structural)]
pub enum BertTag {
    NewFloat,
    SmallInteger,
    Integer,
    Float,
    Atom,
    SmallTuple,
    LargeTuple,
    Nil,
    String,
    List,
    Binary,
    SmallBigNum,
    LargeBigNum,
}

impl BertTag {
    pub open spec fn spec_byte(self) -> u8 {
        match self {
            BertTag::NewFloat => 70,
            BertTag::SmallInteger => 97,
            BertTag::Integer => 98,
            BertTag::Float => 99,
            BertTag::Atom => 100,
            BertTag::SmallTuple => 104,
            BertTag::LargeTuple => 105,
            BertTag::Nil => 106,
            BertTag::String => 107,
            BertTag::List => 108,
            BertTag::Binary => 109,
            BertTag::SmallBigNum => 110,
            BertTag::LargeBigNum => 111,
        }
    }

    /// The byte that stands for this tag on the wire.
    pub fn to_byte(self) -> (r: u8)
        ensures
            r == self.spec_byte(),
    {
        match self {
            BertTag::NewFloat => 70,
            BertTag::SmallInteger => 97,
            BertTag::Integer => 98,
            BertTag::Float => 99,
            BertTag::Atom => 100,
            BertTag::SmallTuple => 104,
            BertTag::LargeTuple => 105,
            BertTag::Nil => 106,
            BertTag::String => 107,
            BertTag::List => 108,
            BertTag::Binary => 109,
            BertTag::SmallBigNum => 110,
            BertTag::LargeBigNum => 111,
        }
    }

    /// The tag that a byte stands for, if it stands for one.
    pub fn from_byte(b: u8) -> (r: Option<BertTag>)
        ensures
            r is Some <==> is_tag_byte(b),
            r matches Some(t) ==> t.spec_byte() == b,
    {
        match b {
            70 => Some(BertTag::NewFloat),
            97 => Some(BertTag::SmallInteger),
            98 => Some(BertTag::Integer),
            99 => Some(BertTag::Float),
            100 => Some(BertTag::Atom),
            104 => Some(BertTag::SmallTuple),
            105 => Some(BertTag::LargeTuple),
            106 => Some(BertTag::Nil),
            107 => Some(BertTag::String),
            108 => Some(BertTag::List),
            109 => Some(BertTag::Binary),
            110 => Some(BertTag::SmallBigNum),
            111 => Some(BertTag::LargeBigNum),
            _ => None,
        }
    }
}

/// The bytes that start a supported term.
pub open spec fn is_tag_byte(b: u8) -> bool {
    b == 70 || b == 97 || b == 98 || b == 99 || b == 100 || (104 <= b && b <= 111)
}

/// A point in time as Erlang's `now()` gives it.
#[derive(Debug, Clone, Copy, PartialEq, Eq, Structural)]
pub struct TimeStruct {
    pub megaseconds: i32,
    pub seconds: i32,
    pub microseconds: i32,
}

/// A timestamp, written as `{bert, time, Mega, Sec, Micro}`.
#[derive(Debug, Clone, Copy, PartialEq, Eq, Structural)]
pub struct BertTime(TimeStruct);

impl BertTime {
    pub fn new(megaseconds: i32, seconds: i32, microseconds: i32) -> (r: BertTime)
        ensures
            r.spec_time() == (TimeStruct { megaseconds, seconds, microseconds }),
    {
        BertTime(TimeStruct { megaseconds, seconds, microseconds })
    }

    pub closed spec fn spec_time(self) -> TimeStruct {
        self.0
    }

    /// The three components of the timestamp.
    pub fn time(&self) -> (r: &TimeStruct)
        ensures
            *r == self.spec_time(),
    {
        &self.0
    }
}

/// A regular expression option, written as a lower-case atom.
#[derive(Debug, Clone, Copy, PartialEq, Eq, Structural)]
pub enum RegexOption {
    Verbose,
    Ignorecase,
    Multiline,
    DotAll,
}

/// The source and options of a regular expression.
#[derive(Debug, Clone, PartialEq, Eq)]
pub struct RegexStruct {
    pub source: String,
    pub options: Vec<RegexOption>,
}

/// A regular expression, written as `{bert, regex, Source, Options}`.
#[derive(Debug, Clone, PartialEq, Eq)]
pub struct BertRegex(RegexStruct);

impl BertRegex {
    pub fn new(source: String, options: Vec<RegexOption>) -> (r: BertRegex)
        ensures
            r.spec_regex().source@ == source@,
            r.spec_regex().options@ == options@,
    {
        BertRegex(RegexStruct { source, options })
    }

    pub closed spec fn spec_regex(self) -> RegexStruct {
        self.0
    }

    /// The source and options of the expression.
    pub fn regex(&self) -> (r: &RegexStruct)
        ensures
            *r == self.spec_regex(),
    {
        &self.0
    }
}

} // verus!
