use crate::text::chars_eq_str;
use vstd::prelude::*;

verus! {

/// Token and node kinds of the BDL concrete syntax tree.  The kind is the
/// only vocabulary the tree speaks; the typed views are derived from it.
#[derive(Clone, Copy, Debug, PartialEq, Eq, Hash, Structural)]
pub enum SyntaxKind {
    Whitespace,
    LineComment,
    BlockComment,
    Ident,
    Number,
    Underscore,
    /// A character the lexer has no token for.
    Error,
    /// A synthetic token at the end of input; never stored in the tree.
    Eof,
    KwConcept,
    KwMapping,
    KwEnum,
    KwMatch,
    KwLet,
    KwIf,
    KwThen,
    KwElse,
    KwTrue,
    KwFalse,
    KwClock,
    KwOutput,
    KwDrive,
    KwDevice,
    KwComponent,
    KwInstance,
    KwBind,
    KwExport,
    KwRequires,
    KwProvides,
    KwParam,
    KwUse,
    KwContext,
    KwRequire,
    KwIn,
    KwOrdered,
    LParen,
    RParen,
    LBrace,
    RBrace,
    LBracket,
    RBracket,
    Lt,
    Gt,
    Le,
    Ge,
    EqEq,
    Ne,
    Colon,
    Comma,
    Semi,
    Eq,
    Arrow,
    FatArrow,
    Plus,
    Minus,
    Star,
    Slash,
    Bang,
    AndAnd,
    OrOr,
    At,
    Dot,
    /// `?`: a slot.
    Question,
    /// `..`: a closed range.
    DotDot,
    /// `??`: a default for an absent value.
    QuestionQuestion,
    /// `^`: a unit power (`s^2`).
    Caret,
    Module,
    /// Root of the expression-only entry point (the canvas formula field).
    Formula,
    ConceptDecl,
    MappingDecl,
    MappingDef,
    EnumDecl,
    EnumVariant,
    ClockDecl,
    ClockTag,
    OutputDecl,
    DriveDecl,
    DeviceDecl,
    DeviceBody,
    PinFix,
    RealizationFix,
    ProviderFix,
    ComponentDecl,
    ComponentBody,
    UseDecl,
    ParamClockDecl,
    PortDecl,
    InstanceDecl,
    InstanceBody,
    InstanceArg,
    BindDecl,
    BindEnd,
    ExportDecl,
    TypeParamList,
    TypeArgList,
    TypeList,
    ParamList,
    ArgList,
    PatternList,
    Name,
    NameRef,
    UnitSuffix,
    NamedType,
    FunctionType,
    ParenType,
    /// `()`: the empty product as a type.
    UnitType,
    /// `(A, B)`: a product domain.
    TupleType,
    NameExpr,
    LiteralExpr,
    ParenExpr,
    CallExpr,
    UnaryExpr,
    BinaryExpr,
    IfExpr,
    MatchExpr,
    MatchArmList,
    MatchArm,
    BlockExpr,
    LetStmt,
    WildcardPattern,
    IdentPattern,
    LiteralPattern,
    ConstructorPattern,
    /// `[a, b, c]`
    ListExpr,
    /// `(a, b)`: a grouped value.
    TupleExpr,
    /// `x => e`: a rule passed to an equation.
    LambdaExpr,
    LambdaParams,
    /// `?`: an expression not yet written.
    SlotExpr,
    /// `()`: the unique value of the empty product.
    UnitExpr,
    /// `all x in xs: body`: a binder over a collection.
    BinderExpr,
    /// `lo .. hi`: a closed range.
    RangeExpr,
    /// Skipped tokens during recovery, kept so the tree stays lossless.
    ErrorNode,
    /// Placeholder for an abandoned marker; never appears in a tree.
    Tombstone,
}

/// Whitespace and comments.
pub open spec fn spec_is_trivia(k: SyntaxKind) -> bool {
    matches!(k, SyntaxKind::Whitespace | SyntaxKind::LineComment | SyntaxKind::BlockComment)
}

/// The token kinds (everything that is not a node kind).
pub open spec fn spec_is_token(k: SyntaxKind) -> bool {
    matches!(k, SyntaxKind::Whitespace | SyntaxKind::LineComment | SyntaxKind::BlockComment | SyntaxKind::Ident | SyntaxKind::Number | SyntaxKind::Underscore | SyntaxKind::Error | SyntaxKind::Eof | SyntaxKind::KwConcept | SyntaxKind::KwMapping | SyntaxKind::KwEnum | SyntaxKind::KwMatch | SyntaxKind::KwLet | SyntaxKind::KwIf | SyntaxKind::KwThen | SyntaxKind::KwElse | SyntaxKind::KwTrue | SyntaxKind::KwFalse | SyntaxKind::KwClock | SyntaxKind::KwOutput | SyntaxKind::KwDrive | SyntaxKind::KwDevice | SyntaxKind::KwComponent | SyntaxKind::KwInstance | SyntaxKind::KwBind | SyntaxKind::KwExport | SyntaxKind::KwRequires | SyntaxKind::KwProvides | SyntaxKind::KwParam | SyntaxKind::KwUse | SyntaxKind::KwContext | SyntaxKind::KwRequire | SyntaxKind::KwIn | SyntaxKind::KwOrdered | SyntaxKind::LParen | SyntaxKind::RParen | SyntaxKind::LBrace | SyntaxKind::RBrace | SyntaxKind::LBracket | SyntaxKind::RBracket | SyntaxKind::Lt | SyntaxKind::Gt | SyntaxKind::Le | SyntaxKind::Ge | SyntaxKind::EqEq | SyntaxKind::Ne | SyntaxKind::Colon | SyntaxKind::Comma | SyntaxKind::Semi | SyntaxKind::Eq | SyntaxKind::Arrow | SyntaxKind::FatArrow | SyntaxKind::Plus | SyntaxKind::Minus | SyntaxKind::Star | SyntaxKind::Slash | SyntaxKind::Bang | SyntaxKind::AndAnd | SyntaxKind::OrOr | SyntaxKind::At | SyntaxKind::Dot | SyntaxKind::Question | SyntaxKind::DotDot | SyntaxKind::QuestionQuestion | SyntaxKind::Caret)
}

/// The reserved words.
pub open spec fn spec_is_keyword(k: SyntaxKind) -> bool {
    matches!(k, SyntaxKind::KwConcept | SyntaxKind::KwMapping | SyntaxKind::KwEnum | SyntaxKind::KwMatch | SyntaxKind::KwLet | SyntaxKind::KwIf | SyntaxKind::KwThen | SyntaxKind::KwElse | SyntaxKind::KwTrue | SyntaxKind::KwFalse | SyntaxKind::KwClock | SyntaxKind::KwOutput | SyntaxKind::KwDrive | SyntaxKind::KwDevice | SyntaxKind::KwComponent | SyntaxKind::KwInstance | SyntaxKind::KwBind | SyntaxKind::KwExport | SyntaxKind::KwRequires | SyntaxKind::KwProvides | SyntaxKind::KwParam | SyntaxKind::KwUse | SyntaxKind::KwContext | SyntaxKind::KwRequire | SyntaxKind::KwIn | SyntaxKind::KwOrdered)
}

/// Reserved for a later version: lexed as a keyword, no production.
pub open spec fn spec_is_future_reserved(k: SyntaxKind) -> bool {
    matches!(k, SyntaxKind::KwContext | SyntaxKind::KwRequire)
}

/// The keywords that begin a top-level item.
pub open spec fn spec_is_item_start(k: SyntaxKind) -> bool {
    matches!(k, SyntaxKind::KwConcept | SyntaxKind::KwOrdered | SyntaxKind::KwMapping | SyntaxKind::KwEnum | SyntaxKind::KwClock | SyntaxKind::KwOutput | SyntaxKind::KwDrive | SyntaxKind::KwDevice | SyntaxKind::KwComponent | SyntaxKind::KwInstance | SyntaxKind::KwBind | SyntaxKind::KwExport)
}

/// The keywords that begin an item inside a component body.
pub open spec fn spec_is_component_item_start(k: SyntaxKind) -> bool {
    matches!(k, SyntaxKind::KwConcept | SyntaxKind::KwOrdered | SyntaxKind::KwMapping | SyntaxKind::KwEnum | SyntaxKind::KwClock | SyntaxKind::KwOutput | SyntaxKind::KwDrive | SyntaxKind::KwDevice | SyntaxKind::KwUse | SyntaxKind::KwParam | SyntaxKind::KwRequires | SyntaxKind::KwProvides)
}

/// The fixed spelling of a keyword or punctuation token.
pub open spec fn spec_fixed_text(k: SyntaxKind) -> Option<Seq<char>> {
    match k {
        SyntaxKind::KwConcept => Some("concept"@),
        SyntaxKind::KwMapping => Some("mapping"@),
        SyntaxKind::KwEnum => Some("enum"@),
        SyntaxKind::KwMatch => Some("match"@),
        SyntaxKind::KwLet => Some("let"@),
        SyntaxKind::KwIf => Some("if"@),
        SyntaxKind::KwThen => Some("then"@),
        SyntaxKind::KwElse => Some("else"@),
        SyntaxKind::KwTrue => Some("true"@),
        SyntaxKind::KwFalse => Some("false"@),
        SyntaxKind::KwClock => Some("clock"@),
        SyntaxKind::KwOutput => Some("output"@),
        SyntaxKind::KwDrive => Some("drive"@),
        SyntaxKind::KwDevice => Some("device"@),
        SyntaxKind::KwComponent => Some("component"@),
        SyntaxKind::KwInstance => Some("instance"@),
        SyntaxKind::KwBind => Some("bind"@),
        SyntaxKind::KwExport => Some("export"@),
        SyntaxKind::KwRequires => Some("requires"@),
        SyntaxKind::KwProvides => Some("provides"@),
        SyntaxKind::KwParam => Some("param"@),
        SyntaxKind::KwUse => Some("use"@),
        SyntaxKind::KwContext => Some("context"@),
        SyntaxKind::KwRequire => Some("require"@),
        SyntaxKind::KwIn => Some("in"@),
        SyntaxKind::KwOrdered => Some("ordered"@),
        SyntaxKind::Underscore => Some("_"@),
        SyntaxKind::LParen => Some("("@),
        SyntaxKind::RParen => Some(")"@),
        SyntaxKind::LBrace => Some("{"@),
        SyntaxKind::RBrace => Some("}"@),
        SyntaxKind::LBracket => Some("["@),
        SyntaxKind::RBracket => Some("]"@),
        SyntaxKind::Lt => Some("<"@),
        SyntaxKind::Gt => Some(">"@),
        SyntaxKind::Le => Some("<="@),
        SyntaxKind::Ge => Some(">="@),
        SyntaxKind::EqEq => Some("=="@),
        SyntaxKind::Ne => Some("!="@),
        SyntaxKind::Colon => Some(":"@),
        SyntaxKind::Comma => Some(","@),
        SyntaxKind::Semi => Some(";"@),
        SyntaxKind::Eq => Some("="@),
        SyntaxKind::Arrow => Some("->"@),
        SyntaxKind::FatArrow => Some("=>"@),
        SyntaxKind::Plus => Some("+"@),
        SyntaxKind::Minus => Some("-"@),
        SyntaxKind::Star => Some("*"@),
        SyntaxKind::Slash => Some("/"@),
        SyntaxKind::Bang => Some("!"@),
        SyntaxKind::AndAnd => Some("&&"@),
        SyntaxKind::OrOr => Some("||"@),
        SyntaxKind::At => Some("@"@),
        SyntaxKind::Dot => Some("."@),
        SyntaxKind::Question => Some("?"@),
        SyntaxKind::DotDot => Some(".."@),
        SyntaxKind::QuestionQuestion => Some("??"@),
        SyntaxKind::Caret => Some("^"@),
        _ => None,
    }
}

/// The keyword kind spelled `s`, if `s` is a reserved word.
pub open spec fn spec_from_keyword(s: Seq<char>) -> Option<SyntaxKind> {
    if s == "concept"@ {
        Some(SyntaxKind::KwConcept)
    } else if s == "mapping"@ {
        Some(SyntaxKind::KwMapping)
    } else if s == "enum"@ {
        Some(SyntaxKind::KwEnum)
    } else if s == "match"@ {
        Some(SyntaxKind::KwMatch)
    } else if s == "let"@ {
        Some(SyntaxKind::KwLet)
    } else if s == "if"@ {
        Some(SyntaxKind::KwIf)
    } else if s == "then"@ {
        Some(SyntaxKind::KwThen)
    } else if s == "else"@ {
        Some(SyntaxKind::KwElse)
    } else if s == "true"@ {
        Some(SyntaxKind::KwTrue)
    } else if s == "false"@ {
        Some(SyntaxKind::KwFalse)
    } else if s == "clock"@ {
        Some(SyntaxKind::KwClock)
    } else if s == "output"@ {
        Some(SyntaxKind::KwOutput)
    } else if s == "drive"@ {
        Some(SyntaxKind::KwDrive)
    } else if s == "device"@ {
        Some(SyntaxKind::KwDevice)
    } else if s == "component"@ {
        Some(SyntaxKind::KwComponent)
    } else if s == "instance"@ {
        Some(SyntaxKind::KwInstance)
    } else if s == "bind"@ {
        Some(SyntaxKind::KwBind)
    } else if s == "export"@ {
        Some(SyntaxKind::KwExport)
    } else if s == "requires"@ {
        Some(SyntaxKind::KwRequires)
    } else if s == "provides"@ {
        Some(SyntaxKind::KwProvides)
    } else if s == "param"@ {
        Some(SyntaxKind::KwParam)
    } else if s == "use"@ {
        Some(SyntaxKind::KwUse)
    } else if s == "context"@ {
        Some(SyntaxKind::KwContext)
    } else if s == "require"@ {
        Some(SyntaxKind::KwRequire)
    } else if s == "in"@ {
        Some(SyntaxKind::KwIn)
    } else if s == "ordered"@ {
        Some(SyntaxKind::KwOrdered)
    } else {
        None
    }
}

impl SyntaxKind {
    /// Whitespace and comments.
    pub fn is_trivia(self) -> (r: bool)
        ensures
            r == spec_is_trivia(self),
    {
        matches!(self, SyntaxKind::Whitespace | SyntaxKind::LineComment | SyntaxKind::BlockComment)
    }

    /// The reserved words.
    pub fn is_keyword(self) -> (r: bool)
        ensures
            r == spec_is_keyword(self),
    {
        matches!(self, SyntaxKind::KwConcept | SyntaxKind::KwMapping | SyntaxKind::KwEnum | SyntaxKind::KwMatch | SyntaxKind::KwLet | SyntaxKind::KwIf | SyntaxKind::KwThen | SyntaxKind::KwElse | SyntaxKind::KwTrue | SyntaxKind::KwFalse | SyntaxKind::KwClock | SyntaxKind::KwOutput | SyntaxKind::KwDrive | SyntaxKind::KwDevice | SyntaxKind::KwComponent | SyntaxKind::KwInstance | SyntaxKind::KwBind | SyntaxKind::KwExport | SyntaxKind::KwRequires | SyntaxKind::KwProvides | SyntaxKind::KwParam | SyntaxKind::KwUse | SyntaxKind::KwContext | SyntaxKind::KwRequire | SyntaxKind::KwIn | SyntaxKind::KwOrdered)
    }

    /// Reserved for a later version: lexed as a keyword, no production.
    pub fn is_future_reserved(self) -> (r: bool)
        ensures
            r == spec_is_future_reserved(self),
    {
        matches!(self, SyntaxKind::KwContext | SyntaxKind::KwRequire)
    }

    /// The keywords that begin a top-level item.
    pub fn is_item_start(self) -> (r: bool)
        ensures
            r == spec_is_item_start(self),
    {
        matches!(self, SyntaxKind::KwConcept | SyntaxKind::KwOrdered | SyntaxKind::KwMapping | SyntaxKind::KwEnum | SyntaxKind::KwClock | SyntaxKind::KwOutput | SyntaxKind::KwDrive | SyntaxKind::KwDevice | SyntaxKind::KwComponent | SyntaxKind::KwInstance | SyntaxKind::KwBind | SyntaxKind::KwExport)
    }

    /// The keywords that begin an item inside a component body.
    pub fn is_component_item_start(self) -> (r: bool)
        ensures
            r == spec_is_component_item_start(self),
    {
        matches!(self, SyntaxKind::KwConcept | SyntaxKind::KwOrdered | SyntaxKind::KwMapping | SyntaxKind::KwEnum | SyntaxKind::KwClock | SyntaxKind::KwOutput | SyntaxKind::KwDrive | SyntaxKind::KwDevice | SyntaxKind::KwUse | SyntaxKind::KwParam | SyntaxKind::KwRequires | SyntaxKind::KwProvides)
    }

    /// Node kinds (everything the tree holds that is not a token).
    pub fn is_node(self) -> (r: bool)
        ensures
            r == !spec_is_token(self),
    {
        !matches!(self, SyntaxKind::Whitespace | SyntaxKind::LineComment | SyntaxKind::BlockComment | SyntaxKind::Ident | SyntaxKind::Number | SyntaxKind::Underscore | SyntaxKind::Error | SyntaxKind::Eof | SyntaxKind::KwConcept | SyntaxKind::KwMapping | SyntaxKind::KwEnum | SyntaxKind::KwMatch | SyntaxKind::KwLet | SyntaxKind::KwIf | SyntaxKind::KwThen | SyntaxKind::KwElse | SyntaxKind::KwTrue | SyntaxKind::KwFalse | SyntaxKind::KwClock | SyntaxKind::KwOutput | SyntaxKind::KwDrive | SyntaxKind::KwDevice | SyntaxKind::KwComponent | SyntaxKind::KwInstance | SyntaxKind::KwBind | SyntaxKind::KwExport | SyntaxKind::KwRequires | SyntaxKind::KwProvides | SyntaxKind::KwParam | SyntaxKind::KwUse | SyntaxKind::KwContext | SyntaxKind::KwRequire | SyntaxKind::KwIn | SyntaxKind::KwOrdered | SyntaxKind::LParen | SyntaxKind::RParen | SyntaxKind::LBrace | SyntaxKind::RBrace | SyntaxKind::LBracket | SyntaxKind::RBracket | SyntaxKind::Lt | SyntaxKind::Gt | SyntaxKind::Le | SyntaxKind::Ge | SyntaxKind::EqEq | SyntaxKind::Ne | SyntaxKind::Colon | SyntaxKind::Comma | SyntaxKind::Semi | SyntaxKind::Eq | SyntaxKind::Arrow | SyntaxKind::FatArrow | SyntaxKind::Plus | SyntaxKind::Minus | SyntaxKind::Star | SyntaxKind::Slash | SyntaxKind::Bang | SyntaxKind::AndAnd | SyntaxKind::OrOr | SyntaxKind::At | SyntaxKind::Dot | SyntaxKind::Question | SyntaxKind::DotDot | SyntaxKind::QuestionQuestion | SyntaxKind::Caret)
    }

    /// The fixed spelling of a keyword or punctuation token.
    pub fn fixed_text(self) -> (r: Option<&'static str>)
        ensures
            r matches Some(s) ==> spec_fixed_text(self) == Some(s@),
            r is None <==> spec_fixed_text(self) is None,
    {
        match self {
            SyntaxKind::KwConcept => Some("concept"),
            SyntaxKind::KwMapping => Some("mapping"),
            SyntaxKind::KwEnum => Some("enum"),
            SyntaxKind::KwMatch => Some("match"),
            SyntaxKind::KwLet => Some("let"),
            SyntaxKind::KwIf => Some("if"),
            SyntaxKind::KwThen => Some("then"),
            SyntaxKind::KwElse => Some("else"),
            SyntaxKind::KwTrue => Some("true"),
            SyntaxKind::KwFalse => Some("false"),
            SyntaxKind::KwClock => Some("clock"),
            SyntaxKind::KwOutput => Some("output"),
            SyntaxKind::KwDrive => Some("drive"),
            SyntaxKind::KwDevice => Some("device"),
            SyntaxKind::KwComponent => Some("component"),
            SyntaxKind::KwInstance => Some("instance"),
            SyntaxKind::KwBind => Some("bind"),
            SyntaxKind::KwExport => Some("export"),
            SyntaxKind::KwRequires => Some("requires"),
            SyntaxKind::KwProvides => Some("provides"),
            SyntaxKind::KwParam => Some("param"),
            SyntaxKind::KwUse => Some("use"),
            SyntaxKind::KwContext => Some("context"),
            SyntaxKind::KwRequire => Some("require"),
            SyntaxKind::KwIn => Some("in"),
            SyntaxKind::KwOrdered => Some("ordered"),
            SyntaxKind::Underscore => Some("_"),
            SyntaxKind::LParen => Some("("),
            SyntaxKind::RParen => Some(")"),
            SyntaxKind::LBrace => Some("{"),
            SyntaxKind::RBrace => Some("}"),
            SyntaxKind::LBracket => Some("["),
            SyntaxKind::RBracket => Some("]"),
            SyntaxKind::Lt => Some("<"),
            SyntaxKind::Gt => Some(">"),
            SyntaxKind::Le => Some("<="),
            SyntaxKind::Ge => Some(">="),
            SyntaxKind::EqEq => Some("=="),
            SyntaxKind::Ne => Some("!="),
            SyntaxKind::Colon => Some(":"),
            SyntaxKind::Comma => Some(","),
            SyntaxKind::Semi => Some(";"),
            SyntaxKind::Eq => Some("="),
            SyntaxKind::Arrow => Some("->"),
            SyntaxKind::FatArrow => Some("=>"),
            SyntaxKind::Plus => Some("+"),
            SyntaxKind::Minus => Some("-"),
            SyntaxKind::Star => Some("*"),
            SyntaxKind::Slash => Some("/"),
            SyntaxKind::Bang => Some("!"),
            SyntaxKind::AndAnd => Some("&&"),
            SyntaxKind::OrOr => Some("||"),
            SyntaxKind::At => Some("@"),
            SyntaxKind::Dot => Some("."),
            SyntaxKind::Question => Some("?"),
            SyntaxKind::DotDot => Some(".."),
            SyntaxKind::QuestionQuestion => Some("??"),
            SyntaxKind::Caret => Some("^"),
            _ => None,
        }
    }

    /// Keyword kind for an identifier spelling, if it is reserved.
    pub fn from_keyword(text: &str) -> (r: Option<SyntaxKind>)
        ensures
            r == spec_from_keyword(text@),
    {
        let cs = crate::text::chars_of(text);
        assert(cs@.subrange(0, cs@.len() as int) =~= cs@);
        keyword_of(&cs, 0, cs.len())
    }

    /// How a token kind is named in a diagnostic: "`)`", "a name", "a number".
    pub fn describe(self) -> (r: String)
        ensures
            r@ == spec_describe(self),
            self == SyntaxKind::Ident ==> r@ == "a name"@,
            self == SyntaxKind::Number ==> r@ == "a number"@,
            self == SyntaxKind::Eof ==> r@ == "the end of the source"@,
            !matches!(self, SyntaxKind::Ident | SyntaxKind::Number | SyntaxKind::Error
                | SyntaxKind::Eof | SyntaxKind::Whitespace | SyntaxKind::LineComment
                | SyntaxKind::BlockComment) ==> match spec_fixed_text(self) {
                Some(t) => r@ == "`"@ + t + "`"@,
                None => r@ == kind_name(self),
            },
            self == SyntaxKind::Error ==> r@ == "an invalid character"@,
            self == SyntaxKind::Whitespace ==> r@ == "whitespace"@,
            (self == SyntaxKind::LineComment || self == SyntaxKind::BlockComment) ==> r@ == "a comment"@,
    {
        match self {
            SyntaxKind::Ident => String::from_str("a name"),
            SyntaxKind::Number => String::from_str("a number"),
            SyntaxKind::Error => String::from_str("an invalid character"),
            SyntaxKind::Eof => String::from_str("the end of the source"),
            SyntaxKind::Whitespace => String::from_str("whitespace"),
            SyntaxKind::LineComment | SyntaxKind::BlockComment => String::from_str("a comment"),
            k => match k.fixed_text() {
                Some(t) => String::from_str("`").concat(t).concat("`"),
                None => String::from_str(k.name()),
            },
        }
    }

    /// The kind's name as the debug rendering writes it.
    pub fn name(self) -> (r: &'static str)
        ensures
            r@ == kind_name(self),
    {
        match self {
            SyntaxKind::Whitespace => "Whitespace",
            SyntaxKind::LineComment => "LineComment",
            SyntaxKind::BlockComment => "BlockComment",
            SyntaxKind::Ident => "Ident",
            SyntaxKind::Number => "Number",
            SyntaxKind::Underscore => "Underscore",
            SyntaxKind::Error => "Error",
            SyntaxKind::Eof => "Eof",
            SyntaxKind::KwConcept => "KwConcept",
            SyntaxKind::KwMapping => "KwMapping",
            SyntaxKind::KwEnum => "KwEnum",
            SyntaxKind::KwMatch => "KwMatch",
            SyntaxKind::KwLet => "KwLet",
            SyntaxKind::KwIf => "KwIf",
            SyntaxKind::KwThen => "KwThen",
            SyntaxKind::KwElse => "KwElse",
            SyntaxKind::KwTrue => "KwTrue",
            SyntaxKind::KwFalse => "KwFalse",
            SyntaxKind::KwClock => "KwClock",
            SyntaxKind::KwOutput => "KwOutput",
            SyntaxKind::KwDrive => "KwDrive",
            SyntaxKind::KwDevice => "KwDevice",
            SyntaxKind::KwComponent => "KwComponent",
            SyntaxKind::KwInstance => "KwInstance",
            SyntaxKind::KwBind => "KwBind",
            SyntaxKind::KwExport => "KwExport",
            SyntaxKind::KwRequires => "KwRequires",
            SyntaxKind::KwProvides => "KwProvides",
            SyntaxKind::KwParam => "KwParam",
            SyntaxKind::KwUse => "KwUse",
            SyntaxKind::KwContext => "KwContext",
            SyntaxKind::KwRequire => "KwRequire",
            SyntaxKind::KwIn => "KwIn",
            SyntaxKind::KwOrdered => "KwOrdered",
            SyntaxKind::LParen => "LParen",
            SyntaxKind::RParen => "RParen",
            SyntaxKind::LBrace => "LBrace",
            SyntaxKind::RBrace => "RBrace",
            SyntaxKind::LBracket => "LBracket",
            SyntaxKind::RBracket => "RBracket",
            SyntaxKind::Lt => "Lt",
            SyntaxKind::Gt => "Gt",
            SyntaxKind::Le => "Le",
            SyntaxKind::Ge => "Ge",
            SyntaxKind::EqEq => "EqEq",
            SyntaxKind::Ne => "Ne",
            SyntaxKind::Colon => "Colon",
            SyntaxKind::Comma => "Comma",
            SyntaxKind::Semi => "Semi",
            SyntaxKind::Eq => "Eq",
            SyntaxKind::Arrow => "Arrow",
            SyntaxKind::FatArrow => "FatArrow",
            SyntaxKind::Plus => "Plus",
            SyntaxKind::Minus => "Minus",
            SyntaxKind::Star => "Star",
            SyntaxKind::Slash => "Slash",
            SyntaxKind::Bang => "Bang",
            SyntaxKind::AndAnd => "AndAnd",
            SyntaxKind::OrOr => "OrOr",
            SyntaxKind::At => "At",
            SyntaxKind::Dot => "Dot",
            SyntaxKind::Question => "Question",
            SyntaxKind::DotDot => "DotDot",
            SyntaxKind::QuestionQuestion => "QuestionQuestion",
            SyntaxKind::Caret => "Caret",
            SyntaxKind::Module => "Module",
            SyntaxKind::Formula => "Formula",
            SyntaxKind::ConceptDecl => "ConceptDecl",
            SyntaxKind::MappingDecl => "MappingDecl",
            SyntaxKind::MappingDef => "MappingDef",
            SyntaxKind::EnumDecl => "EnumDecl",
            SyntaxKind::EnumVariant => "EnumVariant",
            SyntaxKind::ClockDecl => "ClockDecl",
            SyntaxKind::ClockTag => "ClockTag",
            SyntaxKind::OutputDecl => "OutputDecl",
            SyntaxKind::DriveDecl => "DriveDecl",
            SyntaxKind::DeviceDecl => "DeviceDecl",
            SyntaxKind::DeviceBody => "DeviceBody",
            SyntaxKind::PinFix => "PinFix",
            SyntaxKind::RealizationFix => "RealizationFix",
            SyntaxKind::ProviderFix => "ProviderFix",
            SyntaxKind::ComponentDecl => "ComponentDecl",
            SyntaxKind::ComponentBody => "ComponentBody",
            SyntaxKind::UseDecl => "UseDecl",
            SyntaxKind::ParamClockDecl => "ParamClockDecl",
            SyntaxKind::PortDecl => "PortDecl",
            SyntaxKind::InstanceDecl => "InstanceDecl",
            SyntaxKind::InstanceBody => "InstanceBody",
            SyntaxKind::InstanceArg => "InstanceArg",
            SyntaxKind::BindDecl => "BindDecl",
            SyntaxKind::BindEnd => "BindEnd",
            SyntaxKind::ExportDecl => "ExportDecl",
            SyntaxKind::TypeParamList => "TypeParamList",
            SyntaxKind::TypeArgList => "TypeArgList",
            SyntaxKind::TypeList => "TypeList",
            SyntaxKind::ParamList => "ParamList",
            SyntaxKind::ArgList => "ArgList",
            SyntaxKind::PatternList => "PatternList",
            SyntaxKind::Name => "Name",
            SyntaxKind::NameRef => "NameRef",
            SyntaxKind::UnitSuffix => "UnitSuffix",
            SyntaxKind::NamedType => "NamedType",
            SyntaxKind::FunctionType => "FunctionType",
            SyntaxKind::ParenType => "ParenType",
            SyntaxKind::UnitType => "UnitType",
            SyntaxKind::TupleType => "TupleType",
            SyntaxKind::NameExpr => "NameExpr",
            SyntaxKind::LiteralExpr => "LiteralExpr",
            SyntaxKind::ParenExpr => "ParenExpr",
            SyntaxKind::CallExpr => "CallExpr",
            SyntaxKind::UnaryExpr => "UnaryExpr",
            SyntaxKind::BinaryExpr => "BinaryExpr",
            SyntaxKind::IfExpr => "IfExpr",
            SyntaxKind::MatchExpr => "MatchExpr",
            SyntaxKind::MatchArmList => "MatchArmList",
            SyntaxKind::MatchArm => "MatchArm",
            SyntaxKind::BlockExpr => "BlockExpr",
            SyntaxKind::LetStmt => "LetStmt",
            SyntaxKind::WildcardPattern => "WildcardPattern",
            SyntaxKind::IdentPattern => "IdentPattern",
            SyntaxKind::LiteralPattern => "LiteralPattern",
            SyntaxKind::ConstructorPattern => "ConstructorPattern",
            SyntaxKind::ListExpr => "ListExpr",
            SyntaxKind::TupleExpr => "TupleExpr",
            SyntaxKind::LambdaExpr => "LambdaExpr",
            SyntaxKind::LambdaParams => "LambdaParams",
            SyntaxKind::SlotExpr => "SlotExpr",
            SyntaxKind::UnitExpr => "UnitExpr",
            SyntaxKind::BinderExpr => "BinderExpr",
            SyntaxKind::RangeExpr => "RangeExpr",
            SyntaxKind::ErrorNode => "ErrorNode",
            SyntaxKind::Tombstone => "Tombstone",
        }
    }

}

/// How a token kind is named in a diagnostic: "`)`", "a name", "a number".
pub open spec fn spec_describe(k: SyntaxKind) -> Seq<char> {
    match k {
        SyntaxKind::Ident => "a name"@,
        SyntaxKind::Number => "a number"@,
        SyntaxKind::Error => "an invalid character"@,
        SyntaxKind::Eof => "the end of the source"@,
        SyntaxKind::Whitespace => "whitespace"@,
        SyntaxKind::LineComment | SyntaxKind::BlockComment => "a comment"@,
        _ => match spec_fixed_text(k) {
            Some(t) => "`"@ + t + "`"@,
            None => kind_name(k),
        },
    }
}

/// The name of a kind, as its debug rendering writes it.
pub open spec fn kind_name(k: SyntaxKind) -> Seq<char> {
    match k {
        SyntaxKind::Whitespace => "Whitespace"@,
        SyntaxKind::LineComment => "LineComment"@,
        SyntaxKind::BlockComment => "BlockComment"@,
        SyntaxKind::Ident => "Ident"@,
        SyntaxKind::Number => "Number"@,
        SyntaxKind::Underscore => "Underscore"@,
        SyntaxKind::Error => "Error"@,
        SyntaxKind::Eof => "Eof"@,
        SyntaxKind::KwConcept => "KwConcept"@,
        SyntaxKind::KwMapping => "KwMapping"@,
        SyntaxKind::KwEnum => "KwEnum"@,
        SyntaxKind::KwMatch => "KwMatch"@,
        SyntaxKind::KwLet => "KwLet"@,
        SyntaxKind::KwIf => "KwIf"@,
        SyntaxKind::KwThen => "KwThen"@,
        SyntaxKind::KwElse => "KwElse"@,
        SyntaxKind::KwTrue => "KwTrue"@,
        SyntaxKind::KwFalse => "KwFalse"@,
        SyntaxKind::KwClock => "KwClock"@,
        SyntaxKind::KwOutput => "KwOutput"@,
        SyntaxKind::KwDrive => "KwDrive"@,
        SyntaxKind::KwDevice => "KwDevice"@,
        SyntaxKind::KwComponent => "KwComponent"@,
        SyntaxKind::KwInstance => "KwInstance"@,
        SyntaxKind::KwBind => "KwBind"@,
        SyntaxKind::KwExport => "KwExport"@,
        SyntaxKind::KwRequires => "KwRequires"@,
        SyntaxKind::KwProvides => "KwProvides"@,
        SyntaxKind::KwParam => "KwParam"@,
        SyntaxKind::KwUse => "KwUse"@,
        SyntaxKind::KwContext => "KwContext"@,
        SyntaxKind::KwRequire => "KwRequire"@,
        SyntaxKind::KwIn => "KwIn"@,
        SyntaxKind::KwOrdered => "KwOrdered"@,
        SyntaxKind::LParen => "LParen"@,
        SyntaxKind::RParen => "RParen"@,
        SyntaxKind::LBrace => "LBrace"@,
        SyntaxKind::RBrace => "RBrace"@,
        SyntaxKind::LBracket => "LBracket"@,
        SyntaxKind::RBracket => "RBracket"@,
        SyntaxKind::Lt => "Lt"@,
        SyntaxKind::Gt => "Gt"@,
        SyntaxKind::Le => "Le"@,
        SyntaxKind::Ge => "Ge"@,
        SyntaxKind::EqEq => "EqEq"@,
        SyntaxKind::Ne => "Ne"@,
        SyntaxKind::Colon => "Colon"@,
        SyntaxKind::Comma => "Comma"@,
        SyntaxKind::Semi => "Semi"@,
        SyntaxKind::Eq => "Eq"@,
        SyntaxKind::Arrow => "Arrow"@,
        SyntaxKind::FatArrow => "FatArrow"@,
        SyntaxKind::Plus => "Plus"@,
        SyntaxKind::Minus => "Minus"@,
        SyntaxKind::Star => "Star"@,
        SyntaxKind::Slash => "Slash"@,
        SyntaxKind::Bang => "Bang"@,
        SyntaxKind::AndAnd => "AndAnd"@,
        SyntaxKind::OrOr => "OrOr"@,
        SyntaxKind::At => "At"@,
        SyntaxKind::Dot => "Dot"@,
        SyntaxKind::Question => "Question"@,
        SyntaxKind::DotDot => "DotDot"@,
        SyntaxKind::QuestionQuestion => "QuestionQuestion"@,
        SyntaxKind::Caret => "Caret"@,
        SyntaxKind::Module => "Module"@,
        SyntaxKind::Formula => "Formula"@,
        SyntaxKind::ConceptDecl => "ConceptDecl"@,
        SyntaxKind::MappingDecl => "MappingDecl"@,
        SyntaxKind::MappingDef => "MappingDef"@,
        SyntaxKind::EnumDecl => "EnumDecl"@,
        SyntaxKind::EnumVariant => "EnumVariant"@,
        SyntaxKind::ClockDecl => "ClockDecl"@,
        SyntaxKind::ClockTag => "ClockTag"@,
        SyntaxKind::OutputDecl => "OutputDecl"@,
        SyntaxKind::DriveDecl => "DriveDecl"@,
        SyntaxKind::DeviceDecl => "DeviceDecl"@,
        SyntaxKind::DeviceBody => "DeviceBody"@,
        SyntaxKind::PinFix => "PinFix"@,
        SyntaxKind::RealizationFix => "RealizationFix"@,
        SyntaxKind::ProviderFix => "ProviderFix"@,
        SyntaxKind::ComponentDecl => "ComponentDecl"@,
        SyntaxKind::ComponentBody => "ComponentBody"@,
        SyntaxKind::UseDecl => "UseDecl"@,
        SyntaxKind::ParamClockDecl => "ParamClockDecl"@,
        SyntaxKind::PortDecl => "PortDecl"@,
        SyntaxKind::InstanceDecl => "InstanceDecl"@,
        SyntaxKind::InstanceBody => "InstanceBody"@,
        SyntaxKind::InstanceArg => "InstanceArg"@,
        SyntaxKind::BindDecl => "BindDecl"@,
        SyntaxKind::BindEnd => "BindEnd"@,
        SyntaxKind::ExportDecl => "ExportDecl"@,
        SyntaxKind::TypeParamList => "TypeParamList"@,
        SyntaxKind::TypeArgList => "TypeArgList"@,
        SyntaxKind::TypeList => "TypeList"@,
        SyntaxKind::ParamList => "ParamList"@,
        SyntaxKind::ArgList => "ArgList"@,
        SyntaxKind::PatternList => "PatternList"@,
        SyntaxKind::Name => "Name"@,
        SyntaxKind::NameRef => "NameRef"@,
        SyntaxKind::UnitSuffix => "UnitSuffix"@,
        SyntaxKind::NamedType => "NamedType"@,
        SyntaxKind::FunctionType => "FunctionType"@,
        SyntaxKind::ParenType => "ParenType"@,
        SyntaxKind::UnitType => "UnitType"@,
        SyntaxKind::TupleType => "TupleType"@,
        SyntaxKind::NameExpr => "NameExpr"@,
        SyntaxKind::LiteralExpr => "LiteralExpr"@,
        SyntaxKind::ParenExpr => "ParenExpr"@,
        SyntaxKind::CallExpr => "CallExpr"@,
        SyntaxKind::UnaryExpr => "UnaryExpr"@,
        SyntaxKind::BinaryExpr => "BinaryExpr"@,
        SyntaxKind::IfExpr => "IfExpr"@,
        SyntaxKind::MatchExpr => "MatchExpr"@,
        SyntaxKind::MatchArmList => "MatchArmList"@,
        SyntaxKind::MatchArm => "MatchArm"@,
        SyntaxKind::BlockExpr => "BlockExpr"@,
        SyntaxKind::LetStmt => "LetStmt"@,
        SyntaxKind::WildcardPattern => "WildcardPattern"@,
        SyntaxKind::IdentPattern => "IdentPattern"@,
        SyntaxKind::LiteralPattern => "LiteralPattern"@,
        SyntaxKind::ConstructorPattern => "ConstructorPattern"@,
        SyntaxKind::ListExpr => "ListExpr"@,
        SyntaxKind::TupleExpr => "TupleExpr"@,
        SyntaxKind::LambdaExpr => "LambdaExpr"@,
        SyntaxKind::LambdaParams => "LambdaParams"@,
        SyntaxKind::SlotExpr => "SlotExpr"@,
        SyntaxKind::UnitExpr => "UnitExpr"@,
        SyntaxKind::BinderExpr => "BinderExpr"@,
        SyntaxKind::RangeExpr => "RangeExpr"@,
        SyntaxKind::ErrorNode => "ErrorNode"@,
        SyntaxKind::Tombstone => "Tombstone"@,
    }
}

/// The keyword spelled by `cs[lo..hi]`, if any.
pub fn keyword_of(cs: &[char], lo: usize, hi: usize) -> (r: Option<SyntaxKind>)
    requires
        lo <= hi <= cs@.len(),
    ensures
        r == spec_from_keyword(cs@.subrange(lo as int, hi as int)),
{
    if chars_eq_str(cs, lo, hi, "concept") {
        Some(SyntaxKind::KwConcept)
    } else if chars_eq_str(cs, lo, hi, "mapping") {
        Some(SyntaxKind::KwMapping)
    } else if chars_eq_str(cs, lo, hi, "enum") {
        Some(SyntaxKind::KwEnum)
    } else if chars_eq_str(cs, lo, hi, "match") {
        Some(SyntaxKind::KwMatch)
    } else if chars_eq_str(cs, lo, hi, "let") {
        Some(SyntaxKind::KwLet)
    } else if chars_eq_str(cs, lo, hi, "if") {
        Some(SyntaxKind::KwIf)
    } else if chars_eq_str(cs, lo, hi, "then") {
        Some(SyntaxKind::KwThen)
    } else if chars_eq_str(cs, lo, hi, "else") {
        Some(SyntaxKind::KwElse)
    } else if chars_eq_str(cs, lo, hi, "true") {
        Some(SyntaxKind::KwTrue)
    } else if chars_eq_str(cs, lo, hi, "false") {
        Some(SyntaxKind::KwFalse)
    } else if chars_eq_str(cs, lo, hi, "clock") {
        Some(SyntaxKind::KwClock)
    } else if chars_eq_str(cs, lo, hi, "output") {
        Some(SyntaxKind::KwOutput)
    } else if chars_eq_str(cs, lo, hi, "drive") {
        Some(SyntaxKind::KwDrive)
    } else if chars_eq_str(cs, lo, hi, "device") {
        Some(SyntaxKind::KwDevice)
    } else if chars_eq_str(cs, lo, hi, "component") {
        Some(SyntaxKind::KwComponent)
    } else if chars_eq_str(cs, lo, hi, "instance") {
        Some(SyntaxKind::KwInstance)
    } else if chars_eq_str(cs, lo, hi, "bind") {
        Some(SyntaxKind::KwBind)
    } else if chars_eq_str(cs, lo, hi, "export") {
        Some(SyntaxKind::KwExport)
    } else if chars_eq_str(cs, lo, hi, "requires") {
        Some(SyntaxKind::KwRequires)
    } else if chars_eq_str(cs, lo, hi, "provides") {
        Some(SyntaxKind::KwProvides)
    } else if chars_eq_str(cs, lo, hi, "param") {
        Some(SyntaxKind::KwParam)
    } else if chars_eq_str(cs, lo, hi, "use") {
        Some(SyntaxKind::KwUse)
    } else if chars_eq_str(cs, lo, hi, "context") {
        Some(SyntaxKind::KwContext)
    } else if chars_eq_str(cs, lo, hi, "require") {
        Some(SyntaxKind::KwRequire)
    } else if chars_eq_str(cs, lo, hi, "in") {
        Some(SyntaxKind::KwIn)
    } else if chars_eq_str(cs, lo, hi, "ordered") {
        Some(SyntaxKind::KwOrdered)
    } else {
        None
    }
}


/// The raw code of a kind: its position in declaration order.
pub open spec fn spec_to_raw(k: SyntaxKind) -> u16 {
    match k {
        SyntaxKind::Whitespace => 0,
        SyntaxKind::LineComment => 1,
        SyntaxKind::BlockComment => 2,
        SyntaxKind::Ident => 3,
        SyntaxKind::Number => 4,
        SyntaxKind::Underscore => 5,
        SyntaxKind::Error => 6,
        SyntaxKind::Eof => 7,
        SyntaxKind::KwConcept => 8,
        SyntaxKind::KwMapping => 9,
        SyntaxKind::KwEnum => 10,
        SyntaxKind::KwMatch => 11,
        SyntaxKind::KwLet => 12,
        SyntaxKind::KwIf => 13,
        SyntaxKind::KwThen => 14,
        SyntaxKind::KwElse => 15,
        SyntaxKind::KwTrue => 16,
        SyntaxKind::KwFalse => 17,
        SyntaxKind::KwClock => 18,
        SyntaxKind::KwOutput => 19,
        SyntaxKind::KwDrive => 20,
        SyntaxKind::KwDevice => 21,
        SyntaxKind::KwComponent => 22,
        SyntaxKind::KwInstance => 23,
        SyntaxKind::KwBind => 24,
        SyntaxKind::KwExport => 25,
        SyntaxKind::KwRequires => 26,
        SyntaxKind::KwProvides => 27,
        SyntaxKind::KwParam => 28,
        SyntaxKind::KwUse => 29,
        SyntaxKind::KwContext => 30,
        SyntaxKind::KwRequire => 31,
        SyntaxKind::KwIn => 32,
        SyntaxKind::KwOrdered => 33,
        SyntaxKind::LParen => 34,
        SyntaxKind::RParen => 35,
        SyntaxKind::LBrace => 36,
        SyntaxKind::RBrace => 37,
        SyntaxKind::LBracket => 38,
        SyntaxKind::RBracket => 39,
        SyntaxKind::Lt => 40,
        SyntaxKind::Gt => 41,
        SyntaxKind::Le => 42,
        SyntaxKind::Ge => 43,
        SyntaxKind::EqEq => 44,
        SyntaxKind::Ne => 45,
        SyntaxKind::Colon => 46,
        SyntaxKind::Comma => 47,
        SyntaxKind::Semi => 48,
        SyntaxKind::Eq => 49,
        SyntaxKind::Arrow => 50,
        SyntaxKind::FatArrow => 51,
        SyntaxKind::Plus => 52,
        SyntaxKind::Minus => 53,
        SyntaxKind::Star => 54,
        SyntaxKind::Slash => 55,
        SyntaxKind::Bang => 56,
        SyntaxKind::AndAnd => 57,
        SyntaxKind::OrOr => 58,
        SyntaxKind::At => 59,
        SyntaxKind::Dot => 60,
        SyntaxKind::Question => 61,
        SyntaxKind::DotDot => 62,
        SyntaxKind::QuestionQuestion => 63,
        SyntaxKind::Caret => 64,
        SyntaxKind::Module => 65,
        SyntaxKind::Formula => 66,
        SyntaxKind::ConceptDecl => 67,
        SyntaxKind::MappingDecl => 68,
        SyntaxKind::MappingDef => 69,
        SyntaxKind::EnumDecl => 70,
        SyntaxKind::EnumVariant => 71,
        SyntaxKind::ClockDecl => 72,
        SyntaxKind::ClockTag => 73,
        SyntaxKind::OutputDecl => 74,
        SyntaxKind::DriveDecl => 75,
        SyntaxKind::DeviceDecl => 76,
        SyntaxKind::DeviceBody => 77,
        SyntaxKind::PinFix => 78,
        SyntaxKind::RealizationFix => 79,
        SyntaxKind::ProviderFix => 80,
        SyntaxKind::ComponentDecl => 81,
        SyntaxKind::ComponentBody => 82,
        SyntaxKind::UseDecl => 83,
        SyntaxKind::ParamClockDecl => 84,
        SyntaxKind::PortDecl => 85,
        SyntaxKind::InstanceDecl => 86,
        SyntaxKind::InstanceBody => 87,
        SyntaxKind::InstanceArg => 88,
        SyntaxKind::BindDecl => 89,
        SyntaxKind::BindEnd => 90,
        SyntaxKind::ExportDecl => 91,
        SyntaxKind::TypeParamList => 92,
        SyntaxKind::TypeArgList => 93,
        SyntaxKind::TypeList => 94,
        SyntaxKind::ParamList => 95,
        SyntaxKind::ArgList => 96,
        SyntaxKind::PatternList => 97,
        SyntaxKind::Name => 98,
        SyntaxKind::NameRef => 99,
        SyntaxKind::UnitSuffix => 100,
        SyntaxKind::NamedType => 101,
        SyntaxKind::FunctionType => 102,
        SyntaxKind::ParenType => 103,
        SyntaxKind::UnitType => 104,
        SyntaxKind::TupleType => 105,
        SyntaxKind::NameExpr => 106,
        SyntaxKind::LiteralExpr => 107,
        SyntaxKind::ParenExpr => 108,
        SyntaxKind::CallExpr => 109,
        SyntaxKind::UnaryExpr => 110,
        SyntaxKind::BinaryExpr => 111,
        SyntaxKind::IfExpr => 112,
        SyntaxKind::MatchExpr => 113,
        SyntaxKind::MatchArmList => 114,
        SyntaxKind::MatchArm => 115,
        SyntaxKind::BlockExpr => 116,
        SyntaxKind::LetStmt => 117,
        SyntaxKind::WildcardPattern => 118,
        SyntaxKind::IdentPattern => 119,
        SyntaxKind::LiteralPattern => 120,
        SyntaxKind::ConstructorPattern => 121,
        SyntaxKind::ListExpr => 122,
        SyntaxKind::TupleExpr => 123,
        SyntaxKind::LambdaExpr => 124,
        SyntaxKind::LambdaParams => 125,
        SyntaxKind::SlotExpr => 126,
        SyntaxKind::UnitExpr => 127,
        SyntaxKind::BinderExpr => 128,
        SyntaxKind::RangeExpr => 129,
        SyntaxKind::ErrorNode => 130,
        SyntaxKind::Tombstone => 131,
    }
}

/// The kind with a raw code; `Tombstone` for a code no kind has.
pub open spec fn spec_from_raw(raw: u16) -> SyntaxKind {
    match raw {
        0 => SyntaxKind::Whitespace,
        1 => SyntaxKind::LineComment,
        2 => SyntaxKind::BlockComment,
        3 => SyntaxKind::Ident,
        4 => SyntaxKind::Number,
        5 => SyntaxKind::Underscore,
        6 => SyntaxKind::Error,
        7 => SyntaxKind::Eof,
        8 => SyntaxKind::KwConcept,
        9 => SyntaxKind::KwMapping,
        10 => SyntaxKind::KwEnum,
        11 => SyntaxKind::KwMatch,
        12 => SyntaxKind::KwLet,
        13 => SyntaxKind::KwIf,
        14 => SyntaxKind::KwThen,
        15 => SyntaxKind::KwElse,
        16 => SyntaxKind::KwTrue,
        17 => SyntaxKind::KwFalse,
        18 => SyntaxKind::KwClock,
        19 => SyntaxKind::KwOutput,
        20 => SyntaxKind::KwDrive,
        21 => SyntaxKind::KwDevice,
        22 => SyntaxKind::KwComponent,
        23 => SyntaxKind::KwInstance,
        24 => SyntaxKind::KwBind,
        25 => SyntaxKind::KwExport,
        26 => SyntaxKind::KwRequires,
        27 => SyntaxKind::KwProvides,
        28 => SyntaxKind::KwParam,
        29 => SyntaxKind::KwUse,
        30 => SyntaxKind::KwContext,
        31 => SyntaxKind::KwRequire,
        32 => SyntaxKind::KwIn,
        33 => SyntaxKind::KwOrdered,
        34 => SyntaxKind::LParen,
        35 => SyntaxKind::RParen,
        36 => SyntaxKind::LBrace,
        37 => SyntaxKind::RBrace,
        38 => SyntaxKind::LBracket,
        39 => SyntaxKind::RBracket,
        40 => SyntaxKind::Lt,
        41 => SyntaxKind::Gt,
        42 => SyntaxKind::Le,
        43 => SyntaxKind::Ge,
        44 => SyntaxKind::EqEq,
        45 => SyntaxKind::Ne,
        46 => SyntaxKind::Colon,
        47 => SyntaxKind::Comma,
        48 => SyntaxKind::Semi,
        49 => SyntaxKind::Eq,
        50 => SyntaxKind::Arrow,
        51 => SyntaxKind::FatArrow,
        52 => SyntaxKind::Plus,
        53 => SyntaxKind::Minus,
        54 => SyntaxKind::Star,
        55 => SyntaxKind::Slash,
        56 => SyntaxKind::Bang,
        57 => SyntaxKind::AndAnd,
        58 => SyntaxKind::OrOr,
        59 => SyntaxKind::At,
        60 => SyntaxKind::Dot,
        61 => SyntaxKind::Question,
        62 => SyntaxKind::DotDot,
        63 => SyntaxKind::QuestionQuestion,
        64 => SyntaxKind::Caret,
        65 => SyntaxKind::Module,
        66 => SyntaxKind::Formula,
        67 => SyntaxKind::ConceptDecl,
        68 => SyntaxKind::MappingDecl,
        69 => SyntaxKind::MappingDef,
        70 => SyntaxKind::EnumDecl,
        71 => SyntaxKind::EnumVariant,
        72 => SyntaxKind::ClockDecl,
        73 => SyntaxKind::ClockTag,
        74 => SyntaxKind::OutputDecl,
        75 => SyntaxKind::DriveDecl,
        76 => SyntaxKind::DeviceDecl,
        77 => SyntaxKind::DeviceBody,
        78 => SyntaxKind::PinFix,
        79 => SyntaxKind::RealizationFix,
        80 => SyntaxKind::ProviderFix,
        81 => SyntaxKind::ComponentDecl,
        82 => SyntaxKind::ComponentBody,
        83 => SyntaxKind::UseDecl,
        84 => SyntaxKind::ParamClockDecl,
        85 => SyntaxKind::PortDecl,
        86 => SyntaxKind::InstanceDecl,
        87 => SyntaxKind::InstanceBody,
        88 => SyntaxKind::InstanceArg,
        89 => SyntaxKind::BindDecl,
        90 => SyntaxKind::BindEnd,
        91 => SyntaxKind::ExportDecl,
        92 => SyntaxKind::TypeParamList,
        93 => SyntaxKind::TypeArgList,
        94 => SyntaxKind::TypeList,
        95 => SyntaxKind::ParamList,
        96 => SyntaxKind::ArgList,
        97 => SyntaxKind::PatternList,
        98 => SyntaxKind::Name,
        99 => SyntaxKind::NameRef,
        100 => SyntaxKind::UnitSuffix,
        101 => SyntaxKind::NamedType,
        102 => SyntaxKind::FunctionType,
        103 => SyntaxKind::ParenType,
        104 => SyntaxKind::UnitType,
        105 => SyntaxKind::TupleType,
        106 => SyntaxKind::NameExpr,
        107 => SyntaxKind::LiteralExpr,
        108 => SyntaxKind::ParenExpr,
        109 => SyntaxKind::CallExpr,
        110 => SyntaxKind::UnaryExpr,
        111 => SyntaxKind::BinaryExpr,
        112 => SyntaxKind::IfExpr,
        113 => SyntaxKind::MatchExpr,
        114 => SyntaxKind::MatchArmList,
        115 => SyntaxKind::MatchArm,
        116 => SyntaxKind::BlockExpr,
        117 => SyntaxKind::LetStmt,
        118 => SyntaxKind::WildcardPattern,
        119 => SyntaxKind::IdentPattern,
        120 => SyntaxKind::LiteralPattern,
        121 => SyntaxKind::ConstructorPattern,
        122 => SyntaxKind::ListExpr,
        123 => SyntaxKind::TupleExpr,
        124 => SyntaxKind::LambdaExpr,
        125 => SyntaxKind::LambdaParams,
        126 => SyntaxKind::SlotExpr,
        127 => SyntaxKind::UnitExpr,
        128 => SyntaxKind::BinderExpr,
        129 => SyntaxKind::RangeExpr,
        130 => SyntaxKind::ErrorNode,
        _ => SyntaxKind::Tombstone,
    }
}

/// The marker of the BDL language: what its trees are made of.
#[derive(Clone, Copy, Debug, PartialEq, Eq)]
pub struct BdlLanguage;

impl BdlLanguage {
    /// Decoding never fails: an out-of-range code (impossible for trees this
    /// crate builds) maps to `Tombstone`.
    pub fn kind_from_raw(raw: u16) -> (r: SyntaxKind)
        ensures
            r == spec_from_raw(raw),
    {
        match raw {
            0 => SyntaxKind::Whitespace,
            1 => SyntaxKind::LineComment,
            2 => SyntaxKind::BlockComment,
            3 => SyntaxKind::Ident,
            4 => SyntaxKind::Number,
            5 => SyntaxKind::Underscore,
            6 => SyntaxKind::Error,
            7 => SyntaxKind::Eof,
            8 => SyntaxKind::KwConcept,
            9 => SyntaxKind::KwMapping,
            10 => SyntaxKind::KwEnum,
            11 => SyntaxKind::KwMatch,
            12 => SyntaxKind::KwLet,
            13 => SyntaxKind::KwIf,
            14 => SyntaxKind::KwThen,
            15 => SyntaxKind::KwElse,
            16 => SyntaxKind::KwTrue,
            17 => SyntaxKind::KwFalse,
            18 => SyntaxKind::KwClock,
            19 => SyntaxKind::KwOutput,
            20 => SyntaxKind::KwDrive,
            21 => SyntaxKind::KwDevice,
            22 => SyntaxKind::KwComponent,
            23 => SyntaxKind::KwInstance,
            24 => SyntaxKind::KwBind,
            25 => SyntaxKind::KwExport,
            26 => SyntaxKind::KwRequires,
            27 => SyntaxKind::KwProvides,
            28 => SyntaxKind::KwParam,
            29 => SyntaxKind::KwUse,
            30 => SyntaxKind::KwContext,
            31 => SyntaxKind::KwRequire,
            32 => SyntaxKind::KwIn,
            33 => SyntaxKind::KwOrdered,
            34 => SyntaxKind::LParen,
            35 => SyntaxKind::RParen,
            36 => SyntaxKind::LBrace,
            37 => SyntaxKind::RBrace,
            38 => SyntaxKind::LBracket,
            39 => SyntaxKind::RBracket,
            40 => SyntaxKind::Lt,
            41 => SyntaxKind::Gt,
            42 => SyntaxKind::Le,
            43 => SyntaxKind::Ge,
            44 => SyntaxKind::EqEq,
            45 => SyntaxKind::Ne,
            46 => SyntaxKind::Colon,
            47 => SyntaxKind::Comma,
            48 => SyntaxKind::Semi,
            49 => SyntaxKind::Eq,
            50 => SyntaxKind::Arrow,
            51 => SyntaxKind::FatArrow,
            52 => SyntaxKind::Plus,
            53 => SyntaxKind::Minus,
            54 => SyntaxKind::Star,
            55 => SyntaxKind::Slash,
            56 => SyntaxKind::Bang,
            57 => SyntaxKind::AndAnd,
            58 => SyntaxKind::OrOr,
            59 => SyntaxKind::At,
            60 => SyntaxKind::Dot,
            61 => SyntaxKind::Question,
            62 => SyntaxKind::DotDot,
            63 => SyntaxKind::QuestionQuestion,
            64 => SyntaxKind::Caret,
            65 => SyntaxKind::Module,
            66 => SyntaxKind::Formula,
            67 => SyntaxKind::ConceptDecl,
            68 => SyntaxKind::MappingDecl,
            69 => SyntaxKind::MappingDef,
            70 => SyntaxKind::EnumDecl,
            71 => SyntaxKind::EnumVariant,
            72 => SyntaxKind::ClockDecl,
            73 => SyntaxKind::ClockTag,
            74 => SyntaxKind::OutputDecl,
            75 => SyntaxKind::DriveDecl,
            76 => SyntaxKind::DeviceDecl,
            77 => SyntaxKind::DeviceBody,
            78 => SyntaxKind::PinFix,
            79 => SyntaxKind::RealizationFix,
            80 => SyntaxKind::ProviderFix,
            81 => SyntaxKind::ComponentDecl,
            82 => SyntaxKind::ComponentBody,
            83 => SyntaxKind::UseDecl,
            84 => SyntaxKind::ParamClockDecl,
            85 => SyntaxKind::PortDecl,
            86 => SyntaxKind::InstanceDecl,
            87 => SyntaxKind::InstanceBody,
            88 => SyntaxKind::InstanceArg,
            89 => SyntaxKind::BindDecl,
            90 => SyntaxKind::BindEnd,
            91 => SyntaxKind::ExportDecl,
            92 => SyntaxKind::TypeParamList,
            93 => SyntaxKind::TypeArgList,
            94 => SyntaxKind::TypeList,
            95 => SyntaxKind::ParamList,
            96 => SyntaxKind::ArgList,
            97 => SyntaxKind::PatternList,
            98 => SyntaxKind::Name,
            99 => SyntaxKind::NameRef,
            100 => SyntaxKind::UnitSuffix,
            101 => SyntaxKind::NamedType,
            102 => SyntaxKind::FunctionType,
            103 => SyntaxKind::ParenType,
            104 => SyntaxKind::UnitType,
            105 => SyntaxKind::TupleType,
            106 => SyntaxKind::NameExpr,
            107 => SyntaxKind::LiteralExpr,
            108 => SyntaxKind::ParenExpr,
            109 => SyntaxKind::CallExpr,
            110 => SyntaxKind::UnaryExpr,
            111 => SyntaxKind::BinaryExpr,
            112 => SyntaxKind::IfExpr,
            113 => SyntaxKind::MatchExpr,
            114 => SyntaxKind::MatchArmList,
            115 => SyntaxKind::MatchArm,
            116 => SyntaxKind::BlockExpr,
            117 => SyntaxKind::LetStmt,
            118 => SyntaxKind::WildcardPattern,
            119 => SyntaxKind::IdentPattern,
            120 => SyntaxKind::LiteralPattern,
            121 => SyntaxKind::ConstructorPattern,
            122 => SyntaxKind::ListExpr,
            123 => SyntaxKind::TupleExpr,
            124 => SyntaxKind::LambdaExpr,
            125 => SyntaxKind::LambdaParams,
            126 => SyntaxKind::SlotExpr,
            127 => SyntaxKind::UnitExpr,
            128 => SyntaxKind::BinderExpr,
            129 => SyntaxKind::RangeExpr,
            130 => SyntaxKind::ErrorNode,
            _ => SyntaxKind::Tombstone,
        }
    }

    pub fn kind_to_raw(kind: SyntaxKind) -> (r: u16)
        ensures
            r == spec_to_raw(kind),
    {
        match kind {
            SyntaxKind::Whitespace => 0,
            SyntaxKind::LineComment => 1,
            SyntaxKind::BlockComment => 2,
            SyntaxKind::Ident => 3,
            SyntaxKind::Number => 4,
            SyntaxKind::Underscore => 5,
            SyntaxKind::Error => 6,
            SyntaxKind::Eof => 7,
            SyntaxKind::KwConcept => 8,
            SyntaxKind::KwMapping => 9,
            SyntaxKind::KwEnum => 10,
            SyntaxKind::KwMatch => 11,
            SyntaxKind::KwLet => 12,
            SyntaxKind::KwIf => 13,
            SyntaxKind::KwThen => 14,
            SyntaxKind::KwElse => 15,
            SyntaxKind::KwTrue => 16,
            SyntaxKind::KwFalse => 17,
            SyntaxKind::KwClock => 18,
            SyntaxKind::KwOutput => 19,
            SyntaxKind::KwDrive => 20,
            SyntaxKind::KwDevice => 21,
            SyntaxKind::KwComponent => 22,
            SyntaxKind::KwInstance => 23,
            SyntaxKind::KwBind => 24,
            SyntaxKind::KwExport => 25,
            SyntaxKind::KwRequires => 26,
            SyntaxKind::KwProvides => 27,
            SyntaxKind::KwParam => 28,
            SyntaxKind::KwUse => 29,
            SyntaxKind::KwContext => 30,
            SyntaxKind::KwRequire => 31,
            SyntaxKind::KwIn => 32,
            SyntaxKind::KwOrdered => 33,
            SyntaxKind::LParen => 34,
            SyntaxKind::RParen => 35,
            SyntaxKind::LBrace => 36,
            SyntaxKind::RBrace => 37,
            SyntaxKind::LBracket => 38,
            SyntaxKind::RBracket => 39,
            SyntaxKind::Lt => 40,
            SyntaxKind::Gt => 41,
            SyntaxKind::Le => 42,
            SyntaxKind::Ge => 43,
            SyntaxKind::EqEq => 44,
            SyntaxKind::Ne => 45,
            SyntaxKind::Colon => 46,
            SyntaxKind::Comma => 47,
            SyntaxKind::Semi => 48,
            SyntaxKind::Eq => 49,
            SyntaxKind::Arrow => 50,
            SyntaxKind::FatArrow => 51,
            SyntaxKind::Plus => 52,
            SyntaxKind::Minus => 53,
            SyntaxKind::Star => 54,
            SyntaxKind::Slash => 55,
            SyntaxKind::Bang => 56,
            SyntaxKind::AndAnd => 57,
            SyntaxKind::OrOr => 58,
            SyntaxKind::At => 59,
            SyntaxKind::Dot => 60,
            SyntaxKind::Question => 61,
            SyntaxKind::DotDot => 62,
            SyntaxKind::QuestionQuestion => 63,
            SyntaxKind::Caret => 64,
            SyntaxKind::Module => 65,
            SyntaxKind::Formula => 66,
            SyntaxKind::ConceptDecl => 67,
            SyntaxKind::MappingDecl => 68,
            SyntaxKind::MappingDef => 69,
            SyntaxKind::EnumDecl => 70,
            SyntaxKind::EnumVariant => 71,
            SyntaxKind::ClockDecl => 72,
            SyntaxKind::ClockTag => 73,
            SyntaxKind::OutputDecl => 74,
            SyntaxKind::DriveDecl => 75,
            SyntaxKind::DeviceDecl => 76,
            SyntaxKind::DeviceBody => 77,
            SyntaxKind::PinFix => 78,
            SyntaxKind::RealizationFix => 79,
            SyntaxKind::ProviderFix => 80,
            SyntaxKind::ComponentDecl => 81,
            SyntaxKind::ComponentBody => 82,
            SyntaxKind::UseDecl => 83,
            SyntaxKind::ParamClockDecl => 84,
            SyntaxKind::PortDecl => 85,
            SyntaxKind::InstanceDecl => 86,
            SyntaxKind::InstanceBody => 87,
            SyntaxKind::InstanceArg => 88,
            SyntaxKind::BindDecl => 89,
            SyntaxKind::BindEnd => 90,
            SyntaxKind::ExportDecl => 91,
            SyntaxKind::TypeParamList => 92,
            SyntaxKind::TypeArgList => 93,
            SyntaxKind::TypeList => 94,
            SyntaxKind::ParamList => 95,
            SyntaxKind::ArgList => 96,
            SyntaxKind::PatternList => 97,
            SyntaxKind::Name => 98,
            SyntaxKind::NameRef => 99,
            SyntaxKind::UnitSuffix => 100,
            SyntaxKind::NamedType => 101,
            SyntaxKind::FunctionType => 102,
            SyntaxKind::ParenType => 103,
            SyntaxKind::UnitType => 104,
            SyntaxKind::TupleType => 105,
            SyntaxKind::NameExpr => 106,
            SyntaxKind::LiteralExpr => 107,
            SyntaxKind::ParenExpr => 108,
            SyntaxKind::CallExpr => 109,
            SyntaxKind::UnaryExpr => 110,
            SyntaxKind::BinaryExpr => 111,
            SyntaxKind::IfExpr => 112,
            SyntaxKind::MatchExpr => 113,
            SyntaxKind::MatchArmList => 114,
            SyntaxKind::MatchArm => 115,
            SyntaxKind::BlockExpr => 116,
            SyntaxKind::LetStmt => 117,
            SyntaxKind::WildcardPattern => 118,
            SyntaxKind::IdentPattern => 119,
            SyntaxKind::LiteralPattern => 120,
            SyntaxKind::ConstructorPattern => 121,
            SyntaxKind::ListExpr => 122,
            SyntaxKind::TupleExpr => 123,
            SyntaxKind::LambdaExpr => 124,
            SyntaxKind::LambdaParams => 125,
            SyntaxKind::SlotExpr => 126,
            SyntaxKind::UnitExpr => 127,
            SyntaxKind::BinderExpr => 128,
            SyntaxKind::RangeExpr => 129,
            SyntaxKind::ErrorNode => 130,
            SyntaxKind::Tombstone => 131,
        }
    }
}

/// Decoding a kind's raw code gives the kind back, and every code up to
/// the last kind's is some kind's code.
pub proof fn lemma_raw_round_trip(k: SyntaxKind, raw: u16)
    ensures
        spec_from_raw(spec_to_raw(k)) == k,
        raw <= 131 ==> spec_to_raw(spec_from_raw(raw)) == raw,
{
}


/// Every keyword's spelling reads back as that keyword.
pub proof fn lemma_keywords_round_trip(k: SyntaxKind)
    requires
        spec_is_keyword(k),
    ensures
        spec_fixed_text(k) is Some,
        spec_from_keyword(spec_fixed_text(k)->0) == Some(k),
{
    match k {
        SyntaxKind::KwConcept => {
            reveal_strlit("concept");
            assert(spec_from_keyword("concept"@) == Some(SyntaxKind::KwConcept));
        },
        SyntaxKind::KwMapping => {
            reveal_strlit("mapping");
            reveal_strlit("concept");
            assert("mapping"@[0] != "concept"@[0]);
            assert("mapping"@ != "concept"@);
            assert(spec_from_keyword("mapping"@) == Some(SyntaxKind::KwMapping));
        },
        SyntaxKind::KwEnum => {
            reveal_strlit("enum");
            reveal_strlit("concept");
            assert("enum"@.len() != "concept"@.len());
            assert("enum"@ != "concept"@);
            reveal_strlit("mapping");
            assert("enum"@.len() != "mapping"@.len());
            assert("enum"@ != "mapping"@);
            assert(spec_from_keyword("enum"@) == Some(SyntaxKind::KwEnum));
        },
        SyntaxKind::KwMatch => {
            reveal_strlit("match");
            reveal_strlit("concept");
            assert("match"@.len() != "concept"@.len());
            assert("match"@ != "concept"@);
            reveal_strlit("mapping");
            assert("match"@.len() != "mapping"@.len());
            assert("match"@ != "mapping"@);
            reveal_strlit("enum");
            assert("match"@.len() != "enum"@.len());
            assert("match"@ != "enum"@);
            assert(spec_from_keyword("match"@) == Some(SyntaxKind::KwMatch));
        },
        SyntaxKind::KwLet => {
            reveal_strlit("let");
            reveal_strlit("concept");
            assert("let"@.len() != "concept"@.len());
            assert("let"@ != "concept"@);
            reveal_strlit("mapping");
            assert("let"@.len() != "mapping"@.len());
            assert("let"@ != "mapping"@);
            reveal_strlit("enum");
            assert("let"@.len() != "enum"@.len());
            assert("let"@ != "enum"@);
            reveal_strlit("match");
            assert("let"@.len() != "match"@.len());
            assert("let"@ != "match"@);
            assert(spec_from_keyword("let"@) == Some(SyntaxKind::KwLet));
        },
        SyntaxKind::KwIf => {
            reveal_strlit("if");
            reveal_strlit("concept");
            assert("if"@.len() != "concept"@.len());
            assert("if"@ != "concept"@);
            reveal_strlit("mapping");
            assert("if"@.len() != "mapping"@.len());
            assert("if"@ != "mapping"@);
            reveal_strlit("enum");
            assert("if"@.len() != "enum"@.len());
            assert("if"@ != "enum"@);
            reveal_strlit("match");
            assert("if"@.len() != "match"@.len());
            assert("if"@ != "match"@);
            reveal_strlit("let");
            assert("if"@.len() != "let"@.len());
            assert("if"@ != "let"@);
            assert(spec_from_keyword("if"@) == Some(SyntaxKind::KwIf));
        },
        SyntaxKind::KwThen => {
            reveal_strlit("then");
            reveal_strlit("concept");
            assert("then"@.len() != "concept"@.len());
            assert("then"@ != "concept"@);
            reveal_strlit("mapping");
            assert("then"@.len() != "mapping"@.len());
            assert("then"@ != "mapping"@);
            reveal_strlit("enum");
            assert("then"@[0] != "enum"@[0]);
            assert("then"@ != "enum"@);
            reveal_strlit("match");
            assert("then"@.len() != "match"@.len());
            assert("then"@ != "match"@);
            reveal_strlit("let");
            assert("then"@.len() != "let"@.len());
            assert("then"@ != "let"@);
            reveal_strlit("if");
            assert("then"@.len() != "if"@.len());
            assert("then"@ != "if"@);
            assert(spec_from_keyword("then"@) == Some(SyntaxKind::KwThen));
        },
        SyntaxKind::KwElse => {
            reveal_strlit("else");
            reveal_strlit("concept");
            assert("else"@.len() != "concept"@.len());
            assert("else"@ != "concept"@);
            reveal_strlit("mapping");
            assert("else"@.len() != "mapping"@.len());
            assert("else"@ != "mapping"@);
            reveal_strlit("enum");
            assert("else"@[1] != "enum"@[1]);
            assert("else"@ != "enum"@);
            reveal_strlit("match");
            assert("else"@.len() != "match"@.len());
            assert("else"@ != "match"@);
            reveal_strlit("let");
            assert("else"@.len() != "let"@.len());
            assert("else"@ != "let"@);
            reveal_strlit("if");
            assert("else"@.len() != "if"@.len());
            assert("else"@ != "if"@);
            reveal_strlit("then");
            assert("else"@[0] != "then"@[0]);
            assert("else"@ != "then"@);
            assert(spec_from_keyword("else"@) == Some(SyntaxKind::KwElse));
        },
        SyntaxKind::KwTrue => {
            reveal_strlit("true");
            reveal_strlit("concept");
            assert("true"@.len() != "concept"@.len());
            assert("true"@ != "concept"@);
            reveal_strlit("mapping");
            assert("true"@.len() != "mapping"@.len());
            assert("true"@ != "mapping"@);
            reveal_strlit("enum");
            assert("true"@[0] != "enum"@[0]);
            assert("true"@ != "enum"@);
            reveal_strlit("match");
            assert("true"@.len() != "match"@.len());
            assert("true"@ != "match"@);
            reveal_strlit("let");
            assert("true"@.len() != "let"@.len());
            assert("true"@ != "let"@);
            reveal_strlit("if");
            assert("true"@.len() != "if"@.len());
            assert("true"@ != "if"@);
            reveal_strlit("then");
            assert("true"@[1] != "then"@[1]);
            assert("true"@ != "then"@);
            reveal_strlit("else");
            assert("true"@[0] != "else"@[0]);
            assert("true"@ != "else"@);
            assert(spec_from_keyword("true"@) == Some(SyntaxKind::KwTrue));
        },
        SyntaxKind::KwFalse => {
            reveal_strlit("false");
            reveal_strlit("concept");
            assert("false"@.len() != "concept"@.len());
            assert("false"@ != "concept"@);
            reveal_strlit("mapping");
            assert("false"@.len() != "mapping"@.len());
            assert("false"@ != "mapping"@);
            reveal_strlit("enum");
            assert("false"@.len() != "enum"@.len());
            assert("false"@ != "enum"@);
            reveal_strlit("match");
            assert("false"@[0] != "match"@[0]);
            assert("false"@ != "match"@);
            reveal_strlit("let");
            assert("false"@.len() != "let"@.len());
            assert("false"@ != "let"@);
            reveal_strlit("if");
            assert("false"@.len() != "if"@.len());
            assert("false"@ != "if"@);
            reveal_strlit("then");
            assert("false"@.len() != "then"@.len());
            assert("false"@ != "then"@);
            reveal_strlit("else");
            assert("false"@.len() != "else"@.len());
            assert("false"@ != "else"@);
            reveal_strlit("true");
            assert("false"@.len() != "true"@.len());
            assert("false"@ != "true"@);
            assert(spec_from_keyword("false"@) == Some(SyntaxKind::KwFalse));
        },
        SyntaxKind::KwClock => {
            reveal_strlit("clock");
            reveal_strlit("concept");
            assert("clock"@.len() != "concept"@.len());
            assert("clock"@ != "concept"@);
            reveal_strlit("mapping");
            assert("clock"@.len() != "mapping"@.len());
            assert("clock"@ != "mapping"@);
            reveal_strlit("enum");
            assert("clock"@.len() != "enum"@.len());
            assert("clock"@ != "enum"@);
            reveal_strlit("match");
            assert("clock"@[0] != "match"@[0]);
            assert("clock"@ != "match"@);
            reveal_strlit("let");
            assert("clock"@.len() != "let"@.len());
            assert("clock"@ != "let"@);
            reveal_strlit("if");
            assert("clock"@.len() != "if"@.len());
            assert("clock"@ != "if"@);
            reveal_strlit("then");
            assert("clock"@.len() != "then"@.len());
            assert("clock"@ != "then"@);
            reveal_strlit("else");
            assert("clock"@.len() != "else"@.len());
            assert("clock"@ != "else"@);
            reveal_strlit("true");
            assert("clock"@.len() != "true"@.len());
            assert("clock"@ != "true"@);
            reveal_strlit("false");
            assert("clock"@[0] != "false"@[0]);
            assert("clock"@ != "false"@);
            assert(spec_from_keyword("clock"@) == Some(SyntaxKind::KwClock));
        },
        SyntaxKind::KwOutput => {
            reveal_strlit("output");
            reveal_strlit("concept");
            assert("output"@.len() != "concept"@.len());
            assert("output"@ != "concept"@);
            reveal_strlit("mapping");
            assert("output"@.len() != "mapping"@.len());
            assert("output"@ != "mapping"@);
            reveal_strlit("enum");
            assert("output"@.len() != "enum"@.len());
            assert("output"@ != "enum"@);
            reveal_strlit("match");
            assert("output"@.len() != "match"@.len());
            assert("output"@ != "match"@);
            reveal_strlit("let");
            assert("output"@.len() != "let"@.len());
            assert("output"@ != "let"@);
            reveal_strlit("if");
            assert("output"@.len() != "if"@.len());
            assert("output"@ != "if"@);
            reveal_strlit("then");
            assert("output"@.len() != "then"@.len());
            assert("output"@ != "then"@);
            reveal_strlit("else");
            assert("output"@.len() != "else"@.len());
            assert("output"@ != "else"@);
            reveal_strlit("true");
            assert("output"@.len() != "true"@.len());
            assert("output"@ != "true"@);
            reveal_strlit("false");
            assert("output"@.len() != "false"@.len());
            assert("output"@ != "false"@);
            reveal_strlit("clock");
            assert("output"@.len() != "clock"@.len());
            assert("output"@ != "clock"@);
            assert(spec_from_keyword("output"@) == Some(SyntaxKind::KwOutput));
        },
        SyntaxKind::KwDrive => {
            reveal_strlit("drive");
            reveal_strlit("concept");
            assert("drive"@.len() != "concept"@.len());
            assert("drive"@ != "concept"@);
            reveal_strlit("mapping");
            assert("drive"@.len() != "mapping"@.len());
            assert("drive"@ != "mapping"@);
            reveal_strlit("enum");
            assert("drive"@.len() != "enum"@.len());
            assert("drive"@ != "enum"@);
            reveal_strlit("match");
            assert("drive"@[0] != "match"@[0]);
            assert("drive"@ != "match"@);
            reveal_strlit("let");
            assert("drive"@.len() != "let"@.len());
            assert("drive"@ != "let"@);
            reveal_strlit("if");
            assert("drive"@.len() != "if"@.len());
            assert("drive"@ != "if"@);
            reveal_strlit("then");
            assert("drive"@.len() != "then"@.len());
            assert("drive"@ != "then"@);
            reveal_strlit("else");
            assert("drive"@.len() != "else"@.len());
            assert("drive"@ != "else"@);
            reveal_strlit("true");
            assert("drive"@.len() != "true"@.len());
            assert("drive"@ != "true"@);
            reveal_strlit("false");
            assert("drive"@[0] != "false"@[0]);
            assert("drive"@ != "false"@);
            reveal_strlit("clock");
            assert("drive"@[0] != "clock"@[0]);
            assert("drive"@ != "clock"@);
            reveal_strlit("output");
            assert("drive"@.len() != "output"@.len());
            assert("drive"@ != "output"@);
            assert(spec_from_keyword("drive"@) == Some(SyntaxKind::KwDrive));
        },
        SyntaxKind::KwDevice => {
            reveal_strlit("device");
            reveal_strlit("concept");
            assert("device"@.len() != "concept"@.len());
            assert("device"@ != "concept"@);
            reveal_strlit("mapping");
            assert("device"@.len() != "mapping"@.len());
            assert("device"@ != "mapping"@);
            reveal_strlit("enum");
            assert("device"@.len() != "enum"@.len());
            assert("device"@ != "enum"@);
            reveal_strlit("match");
            assert("device"@.len() != "match"@.len());
            assert("device"@ != "match"@);
            reveal_strlit("let");
            assert("device"@.len() != "let"@.len());
            assert("device"@ != "let"@);
            reveal_strlit("if");
            assert("device"@.len() != "if"@.len());
            assert("device"@ != "if"@);
            reveal_strlit("then");
            assert("device"@.len() != "then"@.len());
            assert("device"@ != "then"@);
            reveal_strlit("else");
            assert("device"@.len() != "else"@.len());
            assert("device"@ != "else"@);
            reveal_strlit("true");
            assert("device"@.len() != "true"@.len());
            assert("device"@ != "true"@);
            reveal_strlit("false");
            assert("device"@.len() != "false"@.len());
            assert("device"@ != "false"@);
            reveal_strlit("clock");
            assert("device"@.len() != "clock"@.len());
            assert("device"@ != "clock"@);
            reveal_strlit("output");
            assert("device"@[0] != "output"@[0]);
            assert("device"@ != "output"@);
            reveal_strlit("drive");
            assert("device"@.len() != "drive"@.len());
            assert("device"@ != "drive"@);
            assert(spec_from_keyword("device"@) == Some(SyntaxKind::KwDevice));
        },
        SyntaxKind::KwComponent => {
            reveal_strlit("component");
            reveal_strlit("concept");
            assert("component"@.len() != "concept"@.len());
            assert("component"@ != "concept"@);
            reveal_strlit("mapping");
            assert("component"@.len() != "mapping"@.len());
            assert("component"@ != "mapping"@);
            reveal_strlit("enum");
            assert("component"@.len() != "enum"@.len());
            assert("component"@ != "enum"@);
            reveal_strlit("match");
            assert("component"@.len() != "match"@.len());
            assert("component"@ != "match"@);
            reveal_strlit("let");
            assert("component"@.len() != "let"@.len());
            assert("component"@ != "let"@);
            reveal_strlit("if");
            assert("component"@.len() != "if"@.len());
            assert("component"@ != "if"@);
            reveal_strlit("then");
            assert("component"@.len() != "then"@.len());
            assert("component"@ != "then"@);
            reveal_strlit("else");
            assert("component"@.len() != "else"@.len());
            assert("component"@ != "else"@);
            reveal_strlit("true");
            assert("component"@.len() != "true"@.len());
            assert("component"@ != "true"@);
            reveal_strlit("false");
            assert("component"@.len() != "false"@.len());
            assert("component"@ != "false"@);
            reveal_strlit("clock");
            assert("component"@.len() != "clock"@.len());
            assert("component"@ != "clock"@);
            reveal_strlit("output");
            assert("component"@.len() != "output"@.len());
            assert("component"@ != "output"@);
            reveal_strlit("drive");
            assert("component"@.len() != "drive"@.len());
            assert("component"@ != "drive"@);
            reveal_strlit("device");
            assert("component"@.len() != "device"@.len());
            assert("component"@ != "device"@);
            assert(spec_from_keyword("component"@) == Some(SyntaxKind::KwComponent));
        },
        SyntaxKind::KwInstance => {
            reveal_strlit("instance");
            reveal_strlit("concept");
            assert("instance"@.len() != "concept"@.len());
            assert("instance"@ != "concept"@);
            reveal_strlit("mapping");
            assert("instance"@.len() != "mapping"@.len());
            assert("instance"@ != "mapping"@);
            reveal_strlit("enum");
            assert("instance"@.len() != "enum"@.len());
            assert("instance"@ != "enum"@);
            reveal_strlit("match");
            assert("instance"@.len() != "match"@.len());
            assert("instance"@ != "match"@);
            reveal_strlit("let");
            assert("instance"@.len() != "let"@.len());
            assert("instance"@ != "let"@);
            reveal_strlit("if");
            assert("instance"@.len() != "if"@.len());
            assert("instance"@ != "if"@);
            reveal_strlit("then");
            assert("instance"@.len() != "then"@.len());
            assert("instance"@ != "then"@);
            reveal_strlit("else");
            assert("instance"@.len() != "else"@.len());
            assert("instance"@ != "else"@);
            reveal_strlit("true");
            assert("instance"@.len() != "true"@.len());
            assert("instance"@ != "true"@);
            reveal_strlit("false");
            assert("instance"@.len() != "false"@.len());
            assert("instance"@ != "false"@);
            reveal_strlit("clock");
            assert("instance"@.len() != "clock"@.len());
            assert("instance"@ != "clock"@);
            reveal_strlit("output");
            assert("instance"@.len() != "output"@.len());
            assert("instance"@ != "output"@);
            reveal_strlit("drive");
            assert("instance"@.len() != "drive"@.len());
            assert("instance"@ != "drive"@);
            reveal_strlit("device");
            assert("instance"@.len() != "device"@.len());
            assert("instance"@ != "device"@);
            reveal_strlit("component");
            assert("instance"@.len() != "component"@.len());
            assert("instance"@ != "component"@);
            assert(spec_from_keyword("instance"@) == Some(SyntaxKind::KwInstance));
        },
        SyntaxKind::KwBind => {
            reveal_strlit("bind");
            reveal_strlit("concept");
            assert("bind"@.len() != "concept"@.len());
            assert("bind"@ != "concept"@);
            reveal_strlit("mapping");
            assert("bind"@.len() != "mapping"@.len());
            assert("bind"@ != "mapping"@);
            reveal_strlit("enum");
            assert("bind"@[0] != "enum"@[0]);
            assert("bind"@ != "enum"@);
            reveal_strlit("match");
            assert("bind"@.len() != "match"@.len());
            assert("bind"@ != "match"@);
            reveal_strlit("let");
            assert("bind"@.len() != "let"@.len());
            assert("bind"@ != "let"@);
            reveal_strlit("if");
            assert("bind"@.len() != "if"@.len());
            assert("bind"@ != "if"@);
            reveal_strlit("then");
            assert("bind"@[0] != "then"@[0]);
            assert("bind"@ != "then"@);
            reveal_strlit("else");
            assert("bind"@[0] != "else"@[0]);
            assert("bind"@ != "else"@);
            reveal_strlit("true");
            assert("bind"@[0] != "true"@[0]);
            assert("bind"@ != "true"@);
            reveal_strlit("false");
            assert("bind"@.len() != "false"@.len());
            assert("bind"@ != "false"@);
            reveal_strlit("clock");
            assert("bind"@.len() != "clock"@.len());
            assert("bind"@ != "clock"@);
            reveal_strlit("output");
            assert("bind"@.len() != "output"@.len());
            assert("bind"@ != "output"@);
            reveal_strlit("drive");
            assert("bind"@.len() != "drive"@.len());
            assert("bind"@ != "drive"@);
            reveal_strlit("device");
            assert("bind"@.len() != "device"@.len());
            assert("bind"@ != "device"@);
            reveal_strlit("component");
            assert("bind"@.len() != "component"@.len());
            assert("bind"@ != "component"@);
            reveal_strlit("instance");
            assert("bind"@.len() != "instance"@.len());
            assert("bind"@ != "instance"@);
            assert(spec_from_keyword("bind"@) == Some(SyntaxKind::KwBind));
        },
        SyntaxKind::KwExport => {
            reveal_strlit("export");
            reveal_strlit("concept");
            assert("export"@.len() != "concept"@.len());
            assert("export"@ != "concept"@);
            reveal_strlit("mapping");
            assert("export"@.len() != "mapping"@.len());
            assert("export"@ != "mapping"@);
            reveal_strlit("enum");
            assert("export"@.len() != "enum"@.len());
            assert("export"@ != "enum"@);
            reveal_strlit("match");
            assert("export"@.len() != "match"@.len());
            assert("export"@ != "match"@);
            reveal_strlit("let");
            assert("export"@.len() != "let"@.len());
            assert("export"@ != "let"@);
            reveal_strlit("if");
            assert("export"@.len() != "if"@.len());
            assert("export"@ != "if"@);
            reveal_strlit("then");
            assert("export"@.len() != "then"@.len());
            assert("export"@ != "then"@);
            reveal_strlit("else");
            assert("export"@.len() != "else"@.len());
            assert("export"@ != "else"@);
            reveal_strlit("true");
            assert("export"@.len() != "true"@.len());
            assert("export"@ != "true"@);
            reveal_strlit("false");
            assert("export"@.len() != "false"@.len());
            assert("export"@ != "false"@);
            reveal_strlit("clock");
            assert("export"@.len() != "clock"@.len());
            assert("export"@ != "clock"@);
            reveal_strlit("output");
            assert("export"@[0] != "output"@[0]);
            assert("export"@ != "output"@);
            reveal_strlit("drive");
            assert("export"@.len() != "drive"@.len());
            assert("export"@ != "drive"@);
            reveal_strlit("device");
            assert("export"@[0] != "device"@[0]);
            assert("export"@ != "device"@);
            reveal_strlit("component");
            assert("export"@.len() != "component"@.len());
            assert("export"@ != "component"@);
            reveal_strlit("instance");
            assert("export"@.len() != "instance"@.len());
            assert("export"@ != "instance"@);
            reveal_strlit("bind");
            assert("export"@.len() != "bind"@.len());
            assert("export"@ != "bind"@);
            assert(spec_from_keyword("export"@) == Some(SyntaxKind::KwExport));
        },
        SyntaxKind::KwRequires => {
            reveal_strlit("requires");
            reveal_strlit("concept");
            assert("requires"@.len() != "concept"@.len());
            assert("requires"@ != "concept"@);
            reveal_strlit("mapping");
            assert("requires"@.len() != "mapping"@.len());
            assert("requires"@ != "mapping"@);
            reveal_strlit("enum");
            assert("requires"@.len() != "enum"@.len());
            assert("requires"@ != "enum"@);
            reveal_strlit("match");
            assert("requires"@.len() != "match"@.len());
            assert("requires"@ != "match"@);
            reveal_strlit("let");
            assert("requires"@.len() != "let"@.len());
            assert("requires"@ != "let"@);
            reveal_strlit("if");
            assert("requires"@.len() != "if"@.len());
            assert("requires"@ != "if"@);
            reveal_strlit("then");
            assert("requires"@.len() != "then"@.len());
            assert("requires"@ != "then"@);
            reveal_strlit("else");
            assert("requires"@.len() != "else"@.len());
            assert("requires"@ != "else"@);
            reveal_strlit("true");
            assert("requires"@.len() != "true"@.len());
            assert("requires"@ != "true"@);
            reveal_strlit("false");
            assert("requires"@.len() != "false"@.len());
            assert("requires"@ != "false"@);
            reveal_strlit("clock");
            assert("requires"@.len() != "clock"@.len());
            assert("requires"@ != "clock"@);
            reveal_strlit("output");
            assert("requires"@.len() != "output"@.len());
            assert("requires"@ != "output"@);
            reveal_strlit("drive");
            assert("requires"@.len() != "drive"@.len());
            assert("requires"@ != "drive"@);
            reveal_strlit("device");
            assert("requires"@.len() != "device"@.len());
            assert("requires"@ != "device"@);
            reveal_strlit("component");
            assert("requires"@.len() != "component"@.len());
            assert("requires"@ != "component"@);
            reveal_strlit("instance");
            assert("requires"@[0] != "instance"@[0]);
            assert("requires"@ != "instance"@);
            reveal_strlit("bind");
            assert("requires"@.len() != "bind"@.len());
            assert("requires"@ != "bind"@);
            reveal_strlit("export");
            assert("requires"@.len() != "export"@.len());
            assert("requires"@ != "export"@);
            assert(spec_from_keyword("requires"@) == Some(SyntaxKind::KwRequires));
        },
        SyntaxKind::KwProvides => {
            reveal_strlit("provides");
            reveal_strlit("concept");
            assert("provides"@.len() != "concept"@.len());
            assert("provides"@ != "concept"@);
            reveal_strlit("mapping");
            assert("provides"@.len() != "mapping"@.len());
            assert("provides"@ != "mapping"@);
            reveal_strlit("enum");
            assert("provides"@.len() != "enum"@.len());
            assert("provides"@ != "enum"@);
            reveal_strlit("match");
            assert("provides"@.len() != "match"@.len());
            assert("provides"@ != "match"@);
            reveal_strlit("let");
            assert("provides"@.len() != "let"@.len());
            assert("provides"@ != "let"@);
            reveal_strlit("if");
            assert("provides"@.len() != "if"@.len());
            assert("provides"@ != "if"@);
            reveal_strlit("then");
            assert("provides"@.len() != "then"@.len());
            assert("provides"@ != "then"@);
            reveal_strlit("else");
            assert("provides"@.len() != "else"@.len());
            assert("provides"@ != "else"@);
            reveal_strlit("true");
            assert("provides"@.len() != "true"@.len());
            assert("provides"@ != "true"@);
            reveal_strlit("false");
            assert("provides"@.len() != "false"@.len());
            assert("provides"@ != "false"@);
            reveal_strlit("clock");
            assert("provides"@.len() != "clock"@.len());
            assert("provides"@ != "clock"@);
            reveal_strlit("output");
            assert("provides"@.len() != "output"@.len());
            assert("provides"@ != "output"@);
            reveal_strlit("drive");
            assert("provides"@.len() != "drive"@.len());
            assert("provides"@ != "drive"@);
            reveal_strlit("device");
            assert("provides"@.len() != "device"@.len());
            assert("provides"@ != "device"@);
            reveal_strlit("component");
            assert("provides"@.len() != "component"@.len());
            assert("provides"@ != "component"@);
            reveal_strlit("instance");
            assert("provides"@[0] != "instance"@[0]);
            assert("provides"@ != "instance"@);
            reveal_strlit("bind");
            assert("provides"@.len() != "bind"@.len());
            assert("provides"@ != "bind"@);
            reveal_strlit("export");
            assert("provides"@.len() != "export"@.len());
            assert("provides"@ != "export"@);
            reveal_strlit("requires");
            assert("provides"@[0] != "requires"@[0]);
            assert("provides"@ != "requires"@);
            assert(spec_from_keyword("provides"@) == Some(SyntaxKind::KwProvides));
        },
        SyntaxKind::KwParam => {
            reveal_strlit("param");
            reveal_strlit("concept");
            assert("param"@.len() != "concept"@.len());
            assert("param"@ != "concept"@);
            reveal_strlit("mapping");
            assert("param"@.len() != "mapping"@.len());
            assert("param"@ != "mapping"@);
            reveal_strlit("enum");
            assert("param"@.len() != "enum"@.len());
            assert("param"@ != "enum"@);
            reveal_strlit("match");
            assert("param"@[0] != "match"@[0]);
            assert("param"@ != "match"@);
            reveal_strlit("let");
            assert("param"@.len() != "let"@.len());
            assert("param"@ != "let"@);
            reveal_strlit("if");
            assert("param"@.len() != "if"@.len());
            assert("param"@ != "if"@);
            reveal_strlit("then");
            assert("param"@.len() != "then"@.len());
            assert("param"@ != "then"@);
            reveal_strlit("else");
            assert("param"@.len() != "else"@.len());
            assert("param"@ != "else"@);
            reveal_strlit("true");
            assert("param"@.len() != "true"@.len());
            assert("param"@ != "true"@);
            reveal_strlit("false");
            assert("param"@[0] != "false"@[0]);
            assert("param"@ != "false"@);
            reveal_strlit("clock");
            assert("param"@[0] != "clock"@[0]);
            assert("param"@ != "clock"@);
            reveal_strlit("output");
            assert("param"@.len() != "output"@.len());
            assert("param"@ != "output"@);
            reveal_strlit("drive");
            assert("param"@[0] != "drive"@[0]);
            assert("param"@ != "drive"@);
            reveal_strlit("device");
            assert("param"@.len() != "device"@.len());
            assert("param"@ != "device"@);
            reveal_strlit("component");
            assert("param"@.len() != "component"@.len());
            assert("param"@ != "component"@);
            reveal_strlit("instance");
            assert("param"@.len() != "instance"@.len());
            assert("param"@ != "instance"@);
            reveal_strlit("bind");
            assert("param"@.len() != "bind"@.len());
            assert("param"@ != "bind"@);
            reveal_strlit("export");
            assert("param"@.len() != "export"@.len());
            assert("param"@ != "export"@);
            reveal_strlit("requires");
            assert("param"@.len() != "requires"@.len());
            assert("param"@ != "requires"@);
            reveal_strlit("provides");
            assert("param"@.len() != "provides"@.len());
            assert("param"@ != "provides"@);
            assert(spec_from_keyword("param"@) == Some(SyntaxKind::KwParam));
        },
        SyntaxKind::KwUse => {
            reveal_strlit("use");
            reveal_strlit("concept");
            assert("use"@.len() != "concept"@.len());
            assert("use"@ != "concept"@);
            reveal_strlit("mapping");
            assert("use"@.len() != "mapping"@.len());
            assert("use"@ != "mapping"@);
            reveal_strlit("enum");
            assert("use"@.len() != "enum"@.len());
            assert("use"@ != "enum"@);
            reveal_strlit("match");
            assert("use"@.len() != "match"@.len());
            assert("use"@ != "match"@);
            reveal_strlit("let");
            assert("use"@[0] != "let"@[0]);
            assert("use"@ != "let"@);
            reveal_strlit("if");
            assert("use"@.len() != "if"@.len());
            assert("use"@ != "if"@);
            reveal_strlit("then");
            assert("use"@.len() != "then"@.len());
            assert("use"@ != "then"@);
            reveal_strlit("else");
            assert("use"@.len() != "else"@.len());
            assert("use"@ != "else"@);
            reveal_strlit("true");
            assert("use"@.len() != "true"@.len());
            assert("use"@ != "true"@);
            reveal_strlit("false");
            assert("use"@.len() != "false"@.len());
            assert("use"@ != "false"@);
            reveal_strlit("clock");
            assert("use"@.len() != "clock"@.len());
            assert("use"@ != "clock"@);
            reveal_strlit("output");
            assert("use"@.len() != "output"@.len());
            assert("use"@ != "output"@);
            reveal_strlit("drive");
            assert("use"@.len() != "drive"@.len());
            assert("use"@ != "drive"@);
            reveal_strlit("device");
            assert("use"@.len() != "device"@.len());
            assert("use"@ != "device"@);
            reveal_strlit("component");
            assert("use"@.len() != "component"@.len());
            assert("use"@ != "component"@);
            reveal_strlit("instance");
            assert("use"@.len() != "instance"@.len());
            assert("use"@ != "instance"@);
            reveal_strlit("bind");
            assert("use"@.len() != "bind"@.len());
            assert("use"@ != "bind"@);
            reveal_strlit("export");
            assert("use"@.len() != "export"@.len());
            assert("use"@ != "export"@);
            reveal_strlit("requires");
            assert("use"@.len() != "requires"@.len());
            assert("use"@ != "requires"@);
            reveal_strlit("provides");
            assert("use"@.len() != "provides"@.len());
            assert("use"@ != "provides"@);
            reveal_strlit("param");
            assert("use"@.len() != "param"@.len());
            assert("use"@ != "param"@);
            assert(spec_from_keyword("use"@) == Some(SyntaxKind::KwUse));
        },
        SyntaxKind::KwContext => {
            reveal_strlit("context");
            reveal_strlit("concept");
            assert("context"@[3] != "concept"@[3]);
            assert("context"@ != "concept"@);
            reveal_strlit("mapping");
            assert("context"@[0] != "mapping"@[0]);
            assert("context"@ != "mapping"@);
            reveal_strlit("enum");
            assert("context"@.len() != "enum"@.len());
            assert("context"@ != "enum"@);
            reveal_strlit("match");
            assert("context"@.len() != "match"@.len());
            assert("context"@ != "match"@);
            reveal_strlit("let");
            assert("context"@.len() != "let"@.len());
            assert("context"@ != "let"@);
            reveal_strlit("if");
            assert("context"@.len() != "if"@.len());
            assert("context"@ != "if"@);
            reveal_strlit("then");
            assert("context"@.len() != "then"@.len());
            assert("context"@ != "then"@);
            reveal_strlit("else");
            assert("context"@.len() != "else"@.len());
            assert("context"@ != "else"@);
            reveal_strlit("true");
            assert("context"@.len() != "true"@.len());
            assert("context"@ != "true"@);
            reveal_strlit("false");
            assert("context"@.len() != "false"@.len());
            assert("context"@ != "false"@);
            reveal_strlit("clock");
            assert("context"@.len() != "clock"@.len());
            assert("context"@ != "clock"@);
            reveal_strlit("output");
            assert("context"@.len() != "output"@.len());
            assert("context"@ != "output"@);
            reveal_strlit("drive");
            assert("context"@.len() != "drive"@.len());
            assert("context"@ != "drive"@);
            reveal_strlit("device");
            assert("context"@.len() != "device"@.len());
            assert("context"@ != "device"@);
            reveal_strlit("component");
            assert("context"@.len() != "component"@.len());
            assert("context"@ != "component"@);
            reveal_strlit("instance");
            assert("context"@.len() != "instance"@.len());
            assert("context"@ != "instance"@);
            reveal_strlit("bind");
            assert("context"@.len() != "bind"@.len());
            assert("context"@ != "bind"@);
            reveal_strlit("export");
            assert("context"@.len() != "export"@.len());
            assert("context"@ != "export"@);
            reveal_strlit("requires");
            assert("context"@.len() != "requires"@.len());
            assert("context"@ != "requires"@);
            reveal_strlit("provides");
            assert("context"@.len() != "provides"@.len());
            assert("context"@ != "provides"@);
            reveal_strlit("param");
            assert("context"@.len() != "param"@.len());
            assert("context"@ != "param"@);
            reveal_strlit("use");
            assert("context"@.len() != "use"@.len());
            assert("context"@ != "use"@);
            assert(spec_from_keyword("context"@) == Some(SyntaxKind::KwContext));
        },
        SyntaxKind::KwRequire => {
            reveal_strlit("require");
            reveal_strlit("concept");
            assert("require"@[0] != "concept"@[0]);
            assert("require"@ != "concept"@);
            reveal_strlit("mapping");
            assert("require"@[0] != "mapping"@[0]);
            assert("require"@ != "mapping"@);
            reveal_strlit("enum");
            assert("require"@.len() != "enum"@.len());
            assert("require"@ != "enum"@);
            reveal_strlit("match");
            assert("require"@.len() != "match"@.len());
            assert("require"@ != "match"@);
            reveal_strlit("let");
            assert("require"@.len() != "let"@.len());
            assert("require"@ != "let"@);
            reveal_strlit("if");
            assert("require"@.len() != "if"@.len());
            assert("require"@ != "if"@);
            reveal_strlit("then");
            assert("require"@.len() != "then"@.len());
            assert("require"@ != "then"@);
            reveal_strlit("else");
            assert("require"@.len() != "else"@.len());
            assert("require"@ != "else"@);
            reveal_strlit("true");
            assert("require"@.len() != "true"@.len());
            assert("require"@ != "true"@);
            reveal_strlit("false");
            assert("require"@.len() != "false"@.len());
            assert("require"@ != "false"@);
            reveal_strlit("clock");
            assert("require"@.len() != "clock"@.len());
            assert("require"@ != "clock"@);
            reveal_strlit("output");
            assert("require"@.len() != "output"@.len());
            assert("require"@ != "output"@);
            reveal_strlit("drive");
            assert("require"@.len() != "drive"@.len());
            assert("require"@ != "drive"@);
            reveal_strlit("device");
            assert("require"@.len() != "device"@.len());
            assert("require"@ != "device"@);
            reveal_strlit("component");
            assert("require"@.len() != "component"@.len());
            assert("require"@ != "component"@);
            reveal_strlit("instance");
            assert("require"@.len() != "instance"@.len());
            assert("require"@ != "instance"@);
            reveal_strlit("bind");
            assert("require"@.len() != "bind"@.len());
            assert("require"@ != "bind"@);
            reveal_strlit("export");
            assert("require"@.len() != "export"@.len());
            assert("require"@ != "export"@);
            reveal_strlit("requires");
            assert("require"@.len() != "requires"@.len());
            assert("require"@ != "requires"@);
            reveal_strlit("provides");
            assert("require"@.len() != "provides"@.len());
            assert("require"@ != "provides"@);
            reveal_strlit("param");
            assert("require"@.len() != "param"@.len());
            assert("require"@ != "param"@);
            reveal_strlit("use");
            assert("require"@.len() != "use"@.len());
            assert("require"@ != "use"@);
            reveal_strlit("context");
            assert("require"@[0] != "context"@[0]);
            assert("require"@ != "context"@);
            assert(spec_from_keyword("require"@) == Some(SyntaxKind::KwRequire));
        },
        SyntaxKind::KwIn => {
            reveal_strlit("in");
            reveal_strlit("concept");
            assert("in"@.len() != "concept"@.len());
            assert("in"@ != "concept"@);
            reveal_strlit("mapping");
            assert("in"@.len() != "mapping"@.len());
            assert("in"@ != "mapping"@);
            reveal_strlit("enum");
            assert("in"@.len() != "enum"@.len());
            assert("in"@ != "enum"@);
            reveal_strlit("match");
            assert("in"@.len() != "match"@.len());
            assert("in"@ != "match"@);
            reveal_strlit("let");
            assert("in"@.len() != "let"@.len());
            assert("in"@ != "let"@);
            reveal_strlit("if");
            assert("in"@[1] != "if"@[1]);
            assert("in"@ != "if"@);
            reveal_strlit("then");
            assert("in"@.len() != "then"@.len());
            assert("in"@ != "then"@);
            reveal_strlit("else");
            assert("in"@.len() != "else"@.len());
            assert("in"@ != "else"@);
            reveal_strlit("true");
            assert("in"@.len() != "true"@.len());
            assert("in"@ != "true"@);
            reveal_strlit("false");
            assert("in"@.len() != "false"@.len());
            assert("in"@ != "false"@);
            reveal_strlit("clock");
            assert("in"@.len() != "clock"@.len());
            assert("in"@ != "clock"@);
            reveal_strlit("output");
            assert("in"@.len() != "output"@.len());
            assert("in"@ != "output"@);
            reveal_strlit("drive");
            assert("in"@.len() != "drive"@.len());
            assert("in"@ != "drive"@);
            reveal_strlit("device");
            assert("in"@.len() != "device"@.len());
            assert("in"@ != "device"@);
            reveal_strlit("component");
            assert("in"@.len() != "component"@.len());
            assert("in"@ != "component"@);
            reveal_strlit("instance");
            assert("in"@.len() != "instance"@.len());
            assert("in"@ != "instance"@);
            reveal_strlit("bind");
            assert("in"@.len() != "bind"@.len());
            assert("in"@ != "bind"@);
            reveal_strlit("export");
            assert("in"@.len() != "export"@.len());
            assert("in"@ != "export"@);
            reveal_strlit("requires");
            assert("in"@.len() != "requires"@.len());
            assert("in"@ != "requires"@);
            reveal_strlit("provides");
            assert("in"@.len() != "provides"@.len());
            assert("in"@ != "provides"@);
            reveal_strlit("param");
            assert("in"@.len() != "param"@.len());
            assert("in"@ != "param"@);
            reveal_strlit("use");
            assert("in"@.len() != "use"@.len());
            assert("in"@ != "use"@);
            reveal_strlit("context");
            assert("in"@.len() != "context"@.len());
            assert("in"@ != "context"@);
            reveal_strlit("require");
            assert("in"@.len() != "require"@.len());
            assert("in"@ != "require"@);
            assert(spec_from_keyword("in"@) == Some(SyntaxKind::KwIn));
        },
        SyntaxKind::KwOrdered => {
            reveal_strlit("ordered");
            reveal_strlit("concept");
            assert("ordered"@[0] != "concept"@[0]);
            assert("ordered"@ != "concept"@);
            reveal_strlit("mapping");
            assert("ordered"@[0] != "mapping"@[0]);
            assert("ordered"@ != "mapping"@);
            reveal_strlit("enum");
            assert("ordered"@.len() != "enum"@.len());
            assert("ordered"@ != "enum"@);
            reveal_strlit("match");
            assert("ordered"@.len() != "match"@.len());
            assert("ordered"@ != "match"@);
            reveal_strlit("let");
            assert("ordered"@.len() != "let"@.len());
            assert("ordered"@ != "let"@);
            reveal_strlit("if");
            assert("ordered"@.len() != "if"@.len());
            assert("ordered"@ != "if"@);
            reveal_strlit("then");
            assert("ordered"@.len() != "then"@.len());
            assert("ordered"@ != "then"@);
            reveal_strlit("else");
            assert("ordered"@.len() != "else"@.len());
            assert("ordered"@ != "else"@);
            reveal_strlit("true");
            assert("ordered"@.len() != "true"@.len());
            assert("ordered"@ != "true"@);
            reveal_strlit("false");
            assert("ordered"@.len() != "false"@.len());
            assert("ordered"@ != "false"@);
            reveal_strlit("clock");
            assert("ordered"@.len() != "clock"@.len());
            assert("ordered"@ != "clock"@);
            reveal_strlit("output");
            assert("ordered"@.len() != "output"@.len());
            assert("ordered"@ != "output"@);
            reveal_strlit("drive");
            assert("ordered"@.len() != "drive"@.len());
            assert("ordered"@ != "drive"@);
            reveal_strlit("device");
            assert("ordered"@.len() != "device"@.len());
            assert("ordered"@ != "device"@);
            reveal_strlit("component");
            assert("ordered"@.len() != "component"@.len());
            assert("ordered"@ != "component"@);
            reveal_strlit("instance");
            assert("ordered"@.len() != "instance"@.len());
            assert("ordered"@ != "instance"@);
            reveal_strlit("bind");
            assert("ordered"@.len() != "bind"@.len());
            assert("ordered"@ != "bind"@);
            reveal_strlit("export");
            assert("ordered"@.len() != "export"@.len());
            assert("ordered"@ != "export"@);
            reveal_strlit("requires");
            assert("ordered"@.len() != "requires"@.len());
            assert("ordered"@ != "requires"@);
            reveal_strlit("provides");
            assert("ordered"@.len() != "provides"@.len());
            assert("ordered"@ != "provides"@);
            reveal_strlit("param");
            assert("ordered"@.len() != "param"@.len());
            assert("ordered"@ != "param"@);
            reveal_strlit("use");
            assert("ordered"@.len() != "use"@.len());
            assert("ordered"@ != "use"@);
            reveal_strlit("context");
            assert("ordered"@[0] != "context"@[0]);
            assert("ordered"@ != "context"@);
            reveal_strlit("require");
            assert("ordered"@[0] != "require"@[0]);
            assert("ordered"@ != "require"@);
            reveal_strlit("in");
            assert("ordered"@.len() != "in"@.len());
            assert("ordered"@ != "in"@);
            assert(spec_from_keyword("ordered"@) == Some(SyntaxKind::KwOrdered));
        },
        _ => {},
    }
}

/// A word that is no keyword's spelling reads as no keyword.
pub proof fn lemma_non_keyword(s: Seq<char>)
    requires
        forall|k: SyntaxKind| spec_is_keyword(k) ==> spec_fixed_text(k) != Some(s),
    ensures
        spec_from_keyword(s) is None,
{
    if spec_from_keyword(s) is Some {
        let k = spec_from_keyword(s)->0;
        assert(spec_is_keyword(k));
        assert(spec_fixed_text(k) == Some(s));
    }
}

} // verus!
