//! Model of `getset`-style accessor requests: which getter/setter helpers a
//! field or struct asks for, with what visibility, and how field-level
//! requests inherit from struct-level ones.
//!
//! Attribute text reaches this module already tokenized; the module holds
//! the decisions: recognizing helper names, rejecting duplicate or
//! contradictory requests, and merging struct- and field-level options.

use vstd::prelude::*;
use vstd::string::StringExecFns;

verus! {

/// Type of accessor method derived for a structure.
#[derive(Debug, Clone, Copy, PartialEq, Eq, Hash, Structural)]
pub enum GetSetDerive {
    Setters,
    Getters,
    MutGetters,
    CopyGetters,
}

/// Kind of accessor a single request asks to generate.
#[derive(Debug, PartialEq, Eq, Hash, Copy, Clone, Structural)]
pub enum GetSetGenMode {
    Get,
    GetCopy,
    Setter,
    GetMut,
}

/// Visibility a generated accessor may carry.
#[derive(Debug, PartialEq, Eq, Hash, Copy, Clone, Structural)]
pub enum AccessorVisibility {
    Public,
    PublicCrate,
    PublicSuper,
    PublicSelf,
}

impl GetSetDerive {
    /// The accessor kind each helper generates.
    pub open spec fn mode_spec(self) -> GetSetGenMode {
        match self {
            GetSetDerive::Setters => GetSetGenMode::Setter,
            GetSetDerive::Getters => GetSetGenMode::Get,
            GetSetDerive::MutGetters => GetSetGenMode::GetMut,
            GetSetDerive::CopyGetters => GetSetGenMode::GetCopy,
        }
    }

    pub fn get_mode(self) -> (r: GetSetGenMode)
        ensures
            r == self.mode_spec(),
    {
        match self {
            Self::Setters => GetSetGenMode::Setter,
            Self::Getters => GetSetGenMode::Get,
            Self::MutGetters => GetSetGenMode::GetMut,
            Self::CopyGetters => GetSetGenMode::GetCopy,
        }
    }

    /// Which helper a bare name denotes, if any.
    pub open spec fn of_name(name: Seq<char>) -> Option<GetSetDerive> {
        if name == "Setters"@ {
            Some(GetSetDerive::Setters)
        } else if name == "Getters"@ {
            Some(GetSetDerive::Getters)
        } else if name == "MutGetters"@ {
            Some(GetSetDerive::MutGetters)
        } else if name == "CopyGetters"@ {
            Some(GetSetDerive::CopyGetters)
        } else {
            None
        }
    }

    /// Which helper an attribute path denotes: either a bare helper name, or
    /// a two-segment path whose first segment is the providing crate's name.
    pub open spec fn of_path(segments: Seq<Seq<char>>) -> Option<GetSetDerive> {
        if segments.len() == 1 {
            Self::of_name(segments[0])
        } else if segments.len() == 2 && segments[0] == "getset"@ {
            Self::of_name(segments[1])
        } else {
            None
        }
    }

    /// Recognize a helper from an attribute path given as its segments.
    pub fn try_from_path(segments: &Vec<String>) -> (r: Option<GetSetDerive>)
        ensures
            r == Self::of_path(segments@.map_values(|s: String| s@)),
    {
        if segments.len() == 1 {
            Self::name_to_derive(&segments[0])
        } else if segments.len() == 2 && string_is(&segments[0], "getset") {
            Self::name_to_derive(&segments[1])
        } else {
            None
        }
    }

    fn name_to_derive(name: &String) -> (r: Option<GetSetDerive>)
        ensures
            r == Self::of_name(name@),
    {
        if string_is(name, "Setters") {
            Some(Self::Setters)
        } else if string_is(name, "Getters") {
            Some(Self::Getters)
        } else if string_is(name, "MutGetters") {
            Some(Self::MutGetters)
        } else if string_is(name, "CopyGetters") {
            Some(Self::CopyGetters)
        } else {
            None
        }
    }
}

/// Whether a string equals the given expected text.
pub fn string_is(s: &String, expected: &str) -> (r: bool)
    ensures
        r == (s@ == expected@),
{
    let e = expected.to_owned();
    *s == e
}

impl GetSetGenMode {
    /// The accessor kind a request keyword denotes, if any.
    pub open spec fn of_str(s: Seq<char>) -> Option<GetSetGenMode> {
        if s == "get"@ {
            Some(GetSetGenMode::Get)
        } else if s == "get_copy"@ {
            Some(GetSetGenMode::GetCopy)
        } else if s == "set"@ {
            Some(GetSetGenMode::Setter)
        } else if s == "get_mut"@ {
            Some(GetSetGenMode::GetMut)
        } else {
            None
        }
    }

    pub fn from_str(s: &String) -> (r: Option<GetSetGenMode>)
        ensures
            r == Self::of_str(s@),
    {
        if string_is(s, "get") {
            Some(Self::Get)
        } else if string_is(s, "get_copy") {
            Some(Self::GetCopy)
        } else if string_is(s, "set") {
            Some(Self::Setter)
        } else if string_is(s, "get_mut") {
            Some(Self::GetMut)
        } else {
            None
        }
    }

    /// The request keyword for each accessor kind.
    pub open spec fn name_spec(self) -> Seq<char> {
        match self {
            GetSetGenMode::Get => "get"@,
            GetSetGenMode::GetCopy => "get_copy"@,
            GetSetGenMode::Setter => "set"@,
            GetSetGenMode::GetMut => "get_mut"@,
        }
    }

    pub fn name(self) -> (r: String)
        ensures
            r@ == self.name_spec(),
    {
        match self {
            Self::Get => "get".to_owned(),
            Self::GetCopy => "get_copy".to_owned(),
            Self::Setter => "set".to_owned(),
            Self::GetMut => "get_mut".to_owned(),
        }
    }
}

/// Options attached to one accessor request.
#[derive(Debug, Eq, PartialEq, Clone, Copy, Structural)]
pub struct GetSetOptions {
    pub visibility: Option<AccessorVisibility>,
    pub with_prefix: bool,
}

impl Default for GetSetOptions {
    fn default() -> (r: Self)
        ensures
            r == GetSetOptions::empty(),
    {
        GetSetOptions { visibility: None, with_prefix: false }
    }
}

impl GetSetOptions {
    /// A request with no explicit options.
    pub open spec fn empty() -> GetSetOptions {
        GetSetOptions { visibility: None, with_prefix: false }
    }
}

/// What went wrong while interpreting accessor requests.
#[derive(Debug, PartialEq, Eq, Clone)]
pub enum AccessorError {
    /// A request keyword that names no accessor kind and is not `skip`.
    UnknownToken,
    /// `skip` appearing on a struct rather than a field.
    SkipOnStruct,
    /// The same accessor kind requested twice on one item.
    Duplicate(GetSetGenMode),
    /// `with_prefix` combined with a setter request.
    PrefixOnSetter,
    /// `skip` combined with accessor requests on the same field.
    SkipWithAccessors,
    /// An options word that is neither a visibility nor `with_prefix`.
    UnknownOption(String),
    /// A second visibility inside one options list.
    DuplicateVisibility(String),
}

impl AccessorError {
    /// Human-readable description of the error.
    pub fn message(&self) -> String {
        match self {
            AccessorError::UnknownToken => {
                "expected one of `get`, `get_copy`, `get_mut`, `set`, `skip`".to_owned()
            },
            AccessorError::SkipOnStruct => "`skip` is not valid on a struct".to_owned(),
            AccessorError::Duplicate(mode) => {
                let head = "duplicate `getset(".to_owned();
                let with_mode = head.concat(mode.name().as_str());
                with_mode.concat(")` attribute")
            },
            AccessorError::PrefixOnSetter => {
                "`with_prefix` is not supported for `set`".to_owned()
            },
            AccessorError::SkipWithAccessors => {
                "`skip` is used, but attributes requesting a getter or setter are also present".to_owned()
            },
            AccessorError::UnknownOption(word) => {
                let head = "Failed to parse getset options at `".to_owned();
                head.concat(word.as_str()).concat(
                    "`: expected visibility or `with_prefix`",
                )
            },
            AccessorError::DuplicateVisibility(word) => {
                let head = "Failed to parse getset options at ".to_owned();
                head.concat(word.as_str()).concat(": duplicate visibility")
            },
        }
    }
}

/// The visibility a single options word denotes, if any.
pub open spec fn visibility_of(word: Seq<char>) -> Option<AccessorVisibility> {
    if word == "pub"@ {
        Some(AccessorVisibility::Public)
    } else if word == "pub(crate)"@ {
        Some(AccessorVisibility::PublicCrate)
    } else if word == "pub(super)"@ {
        Some(AccessorVisibility::PublicSuper)
    } else if word == "pub(self)"@ {
        Some(AccessorVisibility::PublicSelf)
    } else {
        None
    }
}

/// One options word folded into the accumulated options: `with_prefix` sets
/// the flag, the first visibility is kept and a second one is an error, and
/// any other word is an error.
pub open spec fn options_step(
    acc: (GetSetOptions, Seq<AccessorError>),
    word: String,
) -> (GetSetOptions, Seq<AccessorError>) {
    if word@ == "with_prefix"@ {
        (GetSetOptions { with_prefix: true, ..acc.0 }, acc.1)
    } else {
        match visibility_of(word@) {
            Some(v) => {
                if acc.0.visibility is None {
                    (GetSetOptions { visibility: Some(v), ..acc.0 }, acc.1)
                } else {
                    (acc.0, acc.1 + seq![AccessorError::DuplicateVisibility(word)])
                }
            },
            None => (acc.0, acc.1 + seq![AccessorError::UnknownOption(word)]),
        }
    }
}

pub open spec fn options_of_words(words: Seq<String>) -> (GetSetOptions, Seq<AccessorError>)
    decreases words.len(),
{
    if words.len() == 0 {
        (GetSetOptions::empty(), Seq::empty())
    } else {
        options_step(options_of_words(words.drop_last()), words.last())
    }
}

/// Interpret the words of one options payload, in order, with every error
/// they raise.
pub fn options_from_words(words: &Vec<String>) -> (r: (GetSetOptions, Vec<AccessorError>))
    ensures
        (r.0, r.1@) == options_of_words(words@),
{
    let mut options = GetSetOptions { visibility: None, with_prefix: false };
    let mut errors: Vec<AccessorError> = Vec::new();
    let mut i: usize = 0;
    while i < words.len()
        invariant
            i <= words.len(),
            (options, errors@) == options_of_words(words@.take(i as int)),
        decreases words.len() - i,
    {
        let word = &words[i];
        if string_is(word, "with_prefix") {
            options.with_prefix = true;
        } else {
            let vis: Option<AccessorVisibility> = if string_is(word, "pub") {
                Some(AccessorVisibility::Public)
            } else if string_is(word, "pub(crate)") {
                Some(AccessorVisibility::PublicCrate)
            } else if string_is(word, "pub(super)") {
                Some(AccessorVisibility::PublicSuper)
            } else if string_is(word, "pub(self)") {
                Some(AccessorVisibility::PublicSelf)
            } else {
                None
            };
            match vis {
                Some(v) => {
                    if options.visibility.is_none() {
                        options.visibility = Some(v);
                    } else {
                        errors.push(AccessorError::DuplicateVisibility(word.clone()));
                    }
                },
                None => {
                    errors.push(AccessorError::UnknownOption(word.clone()));
                },
            }
        }
        proof {
            assert(words@.take(i as int + 1).drop_last() =~= words@.take(i as int));
            assert(words@.take(i as int + 1).last() == words@[i as int]);
        }
        i += 1;
    }
    proof {
        assert(words@.take(words@.len() as int) =~= words@);
    }
    (options, errors)
}

/// One parsed request token: either `skip`, or one accessor kind with its
/// options.
#[derive(Debug, PartialEq, Eq, Clone, Copy, Structural)]
pub enum GetSetToken {
    Skip,
    Gen(GetSetGenMode, GetSetOptions),
}

/// Interpretation of one request keyword with its optional options payload.
pub open spec fn token_of(ident: Seq<char>, options: Option<GetSetOptions>) -> Result<
    GetSetToken,
    AccessorError,
> {
    if ident == "skip"@ {
        Ok(GetSetToken::Skip)
    } else {
        match GetSetGenMode::of_str(ident) {
            Some(mode) => Ok(
                GetSetToken::Gen(
                    mode,
                    match options {
                        Some(o) => o,
                        None => GetSetOptions::empty(),
                    },
                ),
            ),
            None => Err(AccessorError::UnknownToken),
        }
    }
}

/// Turn one request keyword and its optional options into a token.
pub fn token_from_ident(ident: &String, options: Option<GetSetOptions>) -> (r: Result<
    GetSetToken,
    AccessorError,
>)
    ensures
        r == token_of(ident@, options),
{
    if string_is(ident, "skip") {
        Ok(GetSetToken::Skip)
    } else {
        match GetSetGenMode::from_str(ident) {
            Some(mode) => Ok(
                GetSetToken::Gen(
                    mode,
                    match options {
                        Some(o) => o,
                        None => GetSetOptions { visibility: None, with_prefix: false },
                    },
                ),
            ),
            None => Err(AccessorError::UnknownToken),
        }
    }
}

/// The set of accessors requested for one item: at most one request per
/// accessor kind.
#[derive(Debug, PartialEq, Eq, Clone, Copy, Structural)]
pub struct RequestedAccessors {
    pub get: Option<GetSetOptions>,
    pub get_copy: Option<GetSetOptions>,
    pub set: Option<GetSetOptions>,
    pub get_mut: Option<GetSetOptions>,
}

impl RequestedAccessors {
    /// The request recorded for one accessor kind.
    pub open spec fn of(self, mode: GetSetGenMode) -> Option<GetSetOptions> {
        match mode {
            GetSetGenMode::Get => self.get,
            GetSetGenMode::GetCopy => self.get_copy,
            GetSetGenMode::Setter => self.set,
            GetSetGenMode::GetMut => self.get_mut,
        }
    }

    pub open spec fn empty() -> RequestedAccessors {
        RequestedAccessors { get: None, get_copy: None, set: None, get_mut: None }
    }

    pub open spec fn is_empty_spec(self) -> bool {
        self.get is None && self.get_copy is None && self.set is None && self.get_mut is None
    }

    pub fn new() -> (r: RequestedAccessors)
        ensures
            r == RequestedAccessors::empty(),
    {
        RequestedAccessors { get: None, get_copy: None, set: None, get_mut: None }
    }

    pub fn is_empty(&self) -> (r: bool)
        ensures
            r == self.is_empty_spec(),
    {
        self.get.is_none() && self.get_copy.is_none() && self.set.is_none()
            && self.get_mut.is_none()
    }

    /// The state after recording one request: a kind already present keeps
    /// its first request.
    pub open spec fn after_request(self, mode: GetSetGenMode, options: GetSetOptions) -> Self {
        if self.of(mode) is Some {
            self
        } else {
            match mode {
                GetSetGenMode::Get => Self { get: Some(options), ..self },
                GetSetGenMode::GetCopy => Self { get_copy: Some(options), ..self },
                GetSetGenMode::Setter => Self { set: Some(options), ..self },
                GetSetGenMode::GetMut => Self { get_mut: Some(options), ..self },
            }
        }
    }

    /// The errors one request raises: a prefixed setter is refused, and a
    /// kind requested twice is refused the second time.
    pub open spec fn request_errors(
        self,
        mode: GetSetGenMode,
        options: GetSetOptions,
    ) -> Seq<AccessorError> {
        (if options.with_prefix && mode == GetSetGenMode::Setter {
            seq![AccessorError::PrefixOnSetter]
        } else {
            Seq::empty()
        }) + (if self.of(mode) is Some {
            seq![AccessorError::Duplicate(mode)]
        } else {
            Seq::empty()
        })
    }

    /// Record one accessor request, appending any errors it raises.
    pub fn request(
        &mut self,
        mode: GetSetGenMode,
        options: GetSetOptions,
        errors: &mut Vec<AccessorError>,
    )
        ensures
            *final(self) == old(self).after_request(mode, options),
            final(errors)@ == old(errors)@ + old(self).request_errors(mode, options),
    {
        if options.with_prefix && mode == GetSetGenMode::Setter {
            errors.push(AccessorError::PrefixOnSetter);
        }
        match mode {
            GetSetGenMode::Get => {
                if self.get.is_some() {
                    errors.push(AccessorError::Duplicate(mode));
                } else {
                    self.get = Some(options);
                }
            },
            GetSetGenMode::GetCopy => {
                if self.get_copy.is_some() {
                    errors.push(AccessorError::Duplicate(mode));
                } else {
                    self.get_copy = Some(options);
                }
            },
            GetSetGenMode::Setter => {
                if self.set.is_some() {
                    errors.push(AccessorError::Duplicate(mode));
                } else {
                    self.set = Some(options);
                }
            },
            GetSetGenMode::GetMut => {
                if self.get_mut.is_some() {
                    errors.push(AccessorError::Duplicate(mode));
                } else {
                    self.get_mut = Some(options);
                }
            },
        }
        assert(errors@ =~= old(errors)@ + old(self).request_errors(mode, options));
    }
}

/// Accessor requests attached to one field.
#[derive(Debug, PartialEq, Eq, Clone, Copy, Structural)]
pub struct GetSetFieldAttr {
    pub skip: bool,
    pub gen: RequestedAccessors,
}

impl GetSetFieldAttr {
    pub open spec fn empty() -> GetSetFieldAttr {
        GetSetFieldAttr { skip: false, gen: RequestedAccessors::empty() }
    }

    pub fn new() -> (r: GetSetFieldAttr)
        ensures
            r == GetSetFieldAttr::empty(),
    {
        GetSetFieldAttr { skip: false, gen: RequestedAccessors::new() }
    }
}

impl Default for GetSetFieldAttr {
    fn default() -> (r: Self)
        ensures
            r == GetSetFieldAttr::empty(),
    {
        GetSetFieldAttr::new()
    }
}

/// Accessor requests attached to a whole struct, inherited by its fields.
#[derive(Debug, PartialEq, Eq, Clone, Copy, Structural)]
pub struct GetSetStructAttr {
    pub gen: RequestedAccessors,
}

impl GetSetStructAttr {
    pub open spec fn empty() -> GetSetStructAttr {
        GetSetStructAttr { gen: RequestedAccessors::empty() }
    }

    pub fn new() -> (r: GetSetStructAttr)
        ensures
            r == GetSetStructAttr::empty(),
    {
        GetSetStructAttr { gen: RequestedAccessors::new() }
    }
}

impl Default for GetSetStructAttr {
    fn default() -> (r: Self)
        ensures
            r == GetSetStructAttr::empty(),
    {
        GetSetStructAttr::new()
    }
}

/// One token folded into a field's requests.
pub open spec fn field_step(
    acc: (GetSetFieldAttr, Seq<AccessorError>),
    t: GetSetToken,
) -> (GetSetFieldAttr, Seq<AccessorError>) {
    match t {
        GetSetToken::Skip => (GetSetFieldAttr { skip: true, gen: acc.0.gen }, acc.1),
        GetSetToken::Gen(mode, options) => (
            GetSetFieldAttr { skip: acc.0.skip, gen: acc.0.gen.after_request(mode, options) },
            acc.1 + acc.0.gen.request_errors(mode, options),
        ),
    }
}

pub open spec fn field_fold(tokens: Seq<GetSetToken>) -> (GetSetFieldAttr, Seq<AccessorError>)
    decreases tokens.len(),
{
    if tokens.len() == 0 {
        (GetSetFieldAttr::empty(), Seq::empty())
    } else {
        field_step(field_fold(tokens.drop_last()), tokens.last())
    }
}

/// A field's requests from its tokens, with every error they raise; `skip`
/// beside accessor requests is itself an error.
pub open spec fn field_attr_result(tokens: Seq<GetSetToken>) -> (
    GetSetFieldAttr,
    Seq<AccessorError>,
) {
    let folded = field_fold(tokens);
    if folded.0.skip && !folded.0.gen.is_empty_spec() {
        (folded.0, folded.1 + seq![AccessorError::SkipWithAccessors])
    } else {
        folded
    }
}

/// Fold a field's request tokens into its accessor requests.
pub fn field_attr_from_tokens(tokens: &Vec<GetSetToken>) -> (r: (
    GetSetFieldAttr,
    Vec<AccessorError>,
))
    ensures
        (r.0, r.1@) == field_attr_result(tokens@),
{
    let mut attr = GetSetFieldAttr::new();
    let mut errors: Vec<AccessorError> = Vec::new();
    let mut i: usize = 0;
    while i < tokens.len()
        invariant
            i <= tokens.len(),
            (attr, errors@) == field_fold(tokens@.take(i as int)),
        decreases tokens.len() - i,
    {
        match tokens[i] {
            GetSetToken::Skip => {
                attr.skip = true;
            },
            GetSetToken::Gen(mode, options) => {
                attr.gen.request(mode, options, &mut errors);
            },
        }
        proof {
            assert(tokens@.take(i as int + 1).drop_last() =~= tokens@.take(i as int));
            assert(tokens@.take(i as int + 1).last() == tokens@[i as int]);
        }
        i += 1;
    }
    proof {
        assert(tokens@.take(tokens@.len() as int) =~= tokens@);
    }
    if attr.skip && !attr.gen.is_empty() {
        errors.push(AccessorError::SkipWithAccessors);
    }
    (attr, errors)
}

/// One token folded into a struct's requests; `skip` is refused on a struct.
pub open spec fn struct_step(
    acc: (GetSetStructAttr, Seq<AccessorError>),
    t: GetSetToken,
) -> (GetSetStructAttr, Seq<AccessorError>) {
    match t {
        GetSetToken::Skip => (acc.0, acc.1 + seq![AccessorError::SkipOnStruct]),
        GetSetToken::Gen(mode, options) => (
            GetSetStructAttr { gen: acc.0.gen.after_request(mode, options) },
            acc.1 + acc.0.gen.request_errors(mode, options),
        ),
    }
}

pub open spec fn struct_attr_result(tokens: Seq<GetSetToken>) -> (
    GetSetStructAttr,
    Seq<AccessorError>,
)
    decreases tokens.len(),
{
    if tokens.len() == 0 {
        (GetSetStructAttr::empty(), Seq::empty())
    } else {
        struct_step(struct_attr_result(tokens.drop_last()), tokens.last())
    }
}

/// Fold a struct's request tokens into its accessor requests.
pub fn struct_attr_from_tokens(tokens: &Vec<GetSetToken>) -> (r: (
    GetSetStructAttr,
    Vec<AccessorError>,
))
    ensures
        (r.0, r.1@) == struct_attr_result(tokens@),
{
    let mut attr = GetSetStructAttr::new();
    let mut errors: Vec<AccessorError> = Vec::new();
    let mut i: usize = 0;
    while i < tokens.len()
        invariant
            i <= tokens.len(),
            (attr, errors@) == struct_attr_result(tokens@.take(i as int)),
        decreases tokens.len() - i,
    {
        match tokens[i] {
            GetSetToken::Skip => {
                errors.push(AccessorError::SkipOnStruct);
            },
            GetSetToken::Gen(mode, options) => {
                attr.gen.request(mode, options, &mut errors);
            },
        }
        proof {
            assert(tokens@.take(i as int + 1).drop_last() =~= tokens@.take(i as int));
            assert(tokens@.take(i as int + 1).last() == tokens@[i as int]);
        }
        i += 1;
    }
    proof {
        assert(tokens@.take(tokens@.len() as int) =~= tokens@);
    }
    (attr, errors)
}

/// Whether the derive list asks for accessors of the given kind.
pub open spec fn derives_request(derives: Seq<GetSetDerive>, mode: GetSetGenMode) -> bool {
    exists|i: int| 0 <= i < derives.len() && derives[i].mode_spec() == mode
}

/// A field-level request layered over a struct-level one: the field's
/// visibility replaces the struct's, while prefixing is merged.
pub open spec fn merged_request(
    struct_opt: Option<GetSetOptions>,
    field_opt: Option<GetSetOptions>,
) -> Option<GetSetOptions> {
    match (struct_opt, field_opt) {
        (Some(s), Some(f)) => Some(
            GetSetOptions { visibility: f.visibility, with_prefix: s.with_prefix || f.with_prefix },
        ),
        (None, f) => f,
        (s, None) => s,
    }
}

/// The accessor of one kind that a field finally receives, given its own
/// requests, the struct's, and the derive list.
pub open spec fn accessor_for(
    field: GetSetFieldAttr,
    struct_attr: GetSetStructAttr,
    derives: Seq<GetSetDerive>,
    mode: GetSetGenMode,
) -> Option<GetSetOptions> {
    if field.skip || !derives_request(derives, mode) {
        None
    } else {
        merged_request(struct_attr.gen.of(mode), field.gen.of(mode))
    }
}

fn merge_one(struct_opt: Option<GetSetOptions>, field_opt: Option<GetSetOptions>) -> (r: Option<
    GetSetOptions,
>)
    ensures
        r == merged_request(struct_opt, field_opt),
{
    match (struct_opt, field_opt) {
        (Some(s), Some(f)) => Some(
            GetSetOptions { visibility: f.visibility, with_prefix: s.with_prefix || f.with_prefix },
        ),
        (None, f) => f,
        (s, None) => s,
    }
}

fn mode_requested(derives: &Vec<GetSetDerive>, mode: GetSetGenMode) -> (r: bool)
    ensures
        r == derives_request(derives@, mode),
{
    let mut i: usize = 0;
    while i < derives.len()
        invariant
            i <= derives.len(),
            forall|j: int| 0 <= j < i ==> derives@[j].mode_spec() != mode,
        decreases derives.len() - i,
    {
        if derives[i].get_mode() == mode {
            return true;
        }
        i += 1;
    }
    false
}

impl GetSetFieldAttr {
    /// The accessors generated for this field: none when skipped, otherwise
    /// the struct's requests overlaid with the field's, restricted to the
    /// kinds the derive list asks for.
    pub fn get_field_accessors(
        &self,
        derives: &Vec<GetSetDerive>,
        struct_attr: &GetSetStructAttr,
    ) -> (r: RequestedAccessors)
        ensures
            forall|mode: GetSetGenMode| #[trigger]
                r.of(mode) == accessor_for(*self, *struct_attr, derives@, mode),
    {
        if self.skip {
            return RequestedAccessors::new();
        }
        let get = if mode_requested(derives, GetSetGenMode::Get) {
            merge_one(struct_attr.gen.get, self.gen.get)
        } else {
            None
        };
        let get_copy = if mode_requested(derives, GetSetGenMode::GetCopy) {
            merge_one(struct_attr.gen.get_copy, self.gen.get_copy)
        } else {
            None
        };
        let set = if mode_requested(derives, GetSetGenMode::Setter) {
            merge_one(struct_attr.gen.set, self.gen.set)
        } else {
            None
        };
        let get_mut = if mode_requested(derives, GetSetGenMode::GetMut) {
            merge_one(struct_attr.gen.get_mut, self.gen.get_mut)
        } else {
            None
        };
        RequestedAccessors { get, get_copy, set, get_mut }
    }
}

} // verus!
