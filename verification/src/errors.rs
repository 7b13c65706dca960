use vstd::prelude::*;
use vstd::string::to_string_from_display_ensures;

verus! {

/// An error that carries a stable slug and a human readable message.
///
/// Implementations promise that `slug` and `message` return what
/// `spec_slug` and `spec_message` say.
pub trait WasiError {
    spec fn spec_slug(&self) -> Seq<char>;

    spec fn spec_message(&self) -> Seq<char>;

    fn slug(&self) -> (s: &'static str)
        ensures
            s@ == self.spec_slug(),
    ;

    fn message(&self) -> (m: &str)
        ensures
            m@ == self.spec_message(),
    ;
}

/// An error payload `E` paired with a slug and a message.
pub struct Error<E = String> {
    slug: &'static str,
    message: String,
    inner: E,
}

impl<E> Error<E> {
    pub closed spec fn spec_inner(&self) -> E {
        self.inner
    }

    /// Pairs `inner` with `slug` and `message`.
    pub fn new(slug: &'static str, message: String, inner: E) -> (e: Error<E>)
        ensures
            e.spec_slug() == slug@,
            e.spec_message() == message@,
            e.spec_inner() == inner,
    {
        Error { slug, message, inner }
    }

    /// The payload, as the exported signature returns it.
    pub fn into_inner(self) -> (r: E)
        ensures
            r == self.spec_inner(),
    {
        self.inner
    }

    pub fn inner(&self) -> (r: &E)
        ensures
            *r == self.spec_inner(),
    {
        &self.inner
    }
}

impl Error<String> {
    /// An error whose payload is its own message.
    pub fn from_message(slug: &'static str, message: String) -> (e: Error<String>)
        ensures
            e.spec_slug() == slug@,
            e.spec_message() == message@,
            e.spec_inner()@ == message@,
    {
        let inner = message.clone();
        Error { slug, message, inner }
    }
}

impl<E> WasiError for Error<E> {
    closed spec fn spec_slug(&self) -> Seq<char> {
        self.slug@
    }

    closed spec fn spec_message(&self) -> Seq<char> {
        self.message@
    }

    fn slug(&self) -> (s: &'static str) {
        self.slug
    }

    fn message(&self) -> (m: &str) {
        self.message.as_str()
    }
}

/// Attaches a slug to a value that displays itself.
pub trait WithSlug: Sized {
    fn with_slug(self, slug: &'static str) -> Error<Self>;
}

impl<T: std::fmt::Display> WithSlug for T {
    /// The value becomes the payload; its `Display` text becomes the message.
    fn with_slug(self, slug: &'static str) -> (e: Error<T>)
        ensures
            e.spec_slug() == slug@,
            e.spec_inner() == self,
            exists|m: String| #[trigger] to_string_from_display_ensures::<T>(&self, m) && e.spec_message() == m@,
    {
        let message = self.to_string();
        assert(to_string_from_display_ensures::<T>(&self, message));
        Error { slug, message, inner: self }
    }
}

/// Attaches a slug to the error of a result.
pub trait ResultWithSlug<T, E> {
    fn error_with_slug(self, slug: &'static str) -> Result<T, Error<E>>;
}

impl<T, E: std::fmt::Display> ResultWithSlug<T, E> for Result<T, E> {
    /// `Ok` passes through; an `Err` gets the slug, its payload kept.
    fn error_with_slug(self, slug: &'static str) -> (r: Result<T, Error<E>>)
        ensures
            self matches Ok(v) ==> r == Ok::<T, Error<E>>(v),
            self matches Err(x) ==> (r matches Err(e) && e.spec_slug() == slug@ && e.spec_inner() == x
                && exists|m: String| #[trigger] to_string_from_display_ensures::<E>(&x, m) && e.spec_message() == m@),
    {
        match self {
            Ok(v) => Ok(v),
            Err(x) => Err(x.with_slug(slug)),
        }
    }
}

/// What ends a span when a `Result` holds this error: its slug (or the span's
/// configured slug) and its message.
pub trait OutcomeError {
    spec fn outcome_slug(&self, configured: Seq<char>) -> Seq<char>;

    spec fn outcome_message(&self) -> Seq<char>;

    fn slug_or(&self, configured: &'static str) -> (s: &'static str)
        ensures
            s@ == self.outcome_slug(configured@),
    ;

    fn message_text(&self) -> (m: String)
        ensures
            m@ == self.outcome_message(),
    ;
}

/// A `WasiError` ends a span with its own slug and message.
impl<E: WasiError> OutcomeError for E {
    open spec fn outcome_slug(&self, configured: Seq<char>) -> Seq<char> {
        self.spec_slug()
    }

    open spec fn outcome_message(&self) -> Seq<char> {
        self.spec_message()
    }

    fn slug_or(&self, configured: &'static str) -> (s: &'static str) {
        self.slug()
    }

    fn message_text(&self) -> (m: String) {
        self.message().to_string()
    }
}

/// A plain `String` error ends a span with the configured slug and the
/// string as message.
impl OutcomeError for String {
    open spec fn outcome_slug(&self, configured: Seq<char>) -> Seq<char> {
        configured
    }

    open spec fn outcome_message(&self) -> Seq<char> {
        self@
    }

    fn slug_or(&self, configured: &'static str) -> (s: &'static str) {
        configured
    }

    fn message_text(&self) -> (m: String) {
        self.clone()
    }
}

} // verus!
