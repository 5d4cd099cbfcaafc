use crate::text::{is_blank, text_is_blank};
use vstd::prelude::*;
use vstd::string::StringExecFns;

verus! {

/// The severity of a toast; it selects the colour and the icon.
#[derive(Clone, Copy, PartialEq, Eq, Debug, Structural)]
pub enum ToastType {
    Primary,
    Success,
    Warning,
    Danger,
}

/// The directory under which the icon files are served.
pub open spec fn icon_directory() -> Seq<char> {
    "/static/images/icons/"@
}

/// The extension of the icon files.
pub open spec fn icon_extension() -> Seq<char> {
    ".png"@
}

impl ToastType {
    /// The border colour of a toast of this severity.
    pub open spec fn border_color_spec(self) -> Seq<char> {
        match self {
            ToastType::Danger => "#fc2828"@,
            ToastType::Warning => "#fae739"@,
            ToastType::Primary => "#395cfa"@,
            ToastType::Success => "#04c55e"@,
        }
    }

    /// The name of the icon of a toast of this severity, without directory
    /// and extension.
    pub open spec fn icon_token_spec(self) -> Seq<char> {
        match self {
            ToastType::Danger => "x_toast"@,
            ToastType::Warning => "warning_toast"@,
            ToastType::Primary => "info_toast"@,
            ToastType::Success => "check_toast"@,
        }
    }

    /// The border colour of a toast of this severity, as a CSS colour.
    pub fn border_color(self) -> (color: &'static str)
        ensures
            color@ == self.border_color_spec(),
    {
        match self {
            ToastType::Danger => "#fc2828",
            ToastType::Warning => "#fae739",
            ToastType::Primary => "#395cfa",
            ToastType::Success => "#04c55e",
        }
    }

    /// The name of the icon of a toast of this severity.
    pub fn icon_token(self) -> (token: &'static str)
        ensures
            token@ == self.icon_token_spec(),
    {
        match self {
            ToastType::Danger => "x_toast",
            ToastType::Warning => "warning_toast",
            ToastType::Primary => "info_toast",
            ToastType::Success => "check_toast",
        }
    }

    /// The path under which the icon of a toast of this severity is served.
    pub fn icon_path(self) -> (path: String)
        ensures
            path@ == icon_directory() + self.icon_token_spec() + icon_extension(),
    {
        let mut path = String::from_str("/static/images/icons/");
        path.append(self.icon_token());
        path.append(".png");
        path
    }
}

/// Whether `id` carries the marks of a random (version 4) identifier: the
/// version digit is 4 and the two variant bits are `10`.
pub open spec fn is_random_id(id: u128) -> bool {
    id & 0x0000_0000_0000_f000_c000_0000_0000_0000 == 0x0000_0000_0000_4000_8000_0000_0000_0000
}

/// Draws a new identifier: calls `uuid::Uuid::new_v4` and hands the result out
/// as the 128-bit integer that `Uuid::as_u128` gives for it. The identifier
/// is random, so the contract claims only what `new_v4` sets in every one:
/// the version digit and the variant bits.
#[verifier::external_body]
fn fresh_id() -> (id: u128)
    ensures
        is_random_id(id),
{
    uuid::Uuid::new_v4().as_u128()
}

/// One notification: a title, a body that may be empty, a severity, and an
/// identifier that is drawn when the toast is made and then stays with it.
#[derive(Debug)]
pub struct Toast {
    title: String,
    body: String,
    toast_type: ToastType,
    id: u128,
}

/// What a toast holds, as plain values.
pub struct ToastParts {
    pub title: Seq<char>,
    pub body: Seq<char>,
    pub toast_type: ToastType,
    pub id: u128,
}

impl View for Toast {
    type V = ToastParts;

    closed spec fn view(&self) -> ToastParts {
        ToastParts {
            title: self.title@,
            body: self.body@,
            toast_type: self.toast_type,
            id: self.id,
        }
    }
}

impl Toast {
    /// A toast of the given severity with the given title, an empty body and
    /// a new identifier.
    fn with_type(text: &str, toast_type: ToastType) -> (toast: Self)
        ensures
            toast@.title == text@,
            toast@.body == Seq::<char>::empty(),
            toast@.toast_type == toast_type,
            is_random_id(toast@.id),
    {
        Toast { title: String::from_str(text), body: String::new(), toast_type, id: fresh_id() }
    }

    /// A toast of severity `Primary` with the title `text` and an empty body.
    pub fn primary(text: &str) -> (toast: Self)
        ensures
            toast@.title == text@,
            toast@.body == Seq::<char>::empty(),
            toast@.toast_type == ToastType::Primary,
            is_random_id(toast@.id),
    {
        Toast::with_type(text, ToastType::Primary)
    }

    /// A toast of severity `Success` with the title `text` and an empty body.
    pub fn success(text: &str) -> (toast: Self)
        ensures
            toast@.title == text@,
            toast@.body == Seq::<char>::empty(),
            toast@.toast_type == ToastType::Success,
            is_random_id(toast@.id),
    {
        Toast::with_type(text, ToastType::Success)
    }

    /// A toast of severity `Warning` with the title `text` and an empty body.
    pub fn warning(text: &str) -> (toast: Self)
        ensures
            toast@.title == text@,
            toast@.body == Seq::<char>::empty(),
            toast@.toast_type == ToastType::Warning,
            is_random_id(toast@.id),
    {
        Toast::with_type(text, ToastType::Warning)
    }

    /// A toast of severity `Danger` with the title `text` and an empty body.
    pub fn danger(text: &str) -> (toast: Self)
        ensures
            toast@.title == text@,
            toast@.body == Seq::<char>::empty(),
            toast@.toast_type == ToastType::Danger,
            is_random_id(toast@.id),
    {
        Toast::with_type(text, ToastType::Danger)
    }

    /// The same toast with its body replaced by `body`; title, severity and
    /// identifier stay.
    pub fn body(self, body: &str) -> (toast: Self)
        ensures
            toast@ == (ToastParts { body: body@, ..self@ }),
    {
        let mut toast = self;
        toast.body = String::from_str(body);
        toast
    }

    /// A toast made of the four given parts, as they come out of a stored
    /// form. No identifier is drawn.
    pub fn from_parts(title: String, body: String, toast_type: ToastType, id: u128) -> (toast: Self)
        ensures
            toast@ == (ToastParts { title: title@, body: body@, toast_type, id }),
    {
        Toast { title, body, toast_type, id }
    }

    /// The title.
    pub fn title(&self) -> (title: &str)
        ensures
            title@ == self@.title,
    {
        self.title.as_str()
    }

    /// The body; empty where none was given.
    pub fn body_text(&self) -> (body: &str)
        ensures
            body@ == self@.body,
    {
        self.body.as_str()
    }

    /// The severity.
    pub fn toast_type(&self) -> (toast_type: ToastType)
        ensures
            toast_type == self@.toast_type,
    {
        self.toast_type
    }

    /// The identifier.
    pub fn id(&self) -> (id: u128)
        ensures
            id == self@.id,
    {
        self.id
    }

    /// Whether the toast is shown as a title alone: its body is empty or
    /// holds white space only.
    pub fn is_title_only(&self) -> (title_only: bool)
        ensures
            title_only == is_blank(self@.body),
    {
        text_is_blank(self.body.as_str())
    }
}

impl Default for Toast {
    /// A toast of severity `Primary` with an empty title, an empty body and
    /// a new identifier.
    fn default() -> (toast: Self)
        ensures
            toast@.title == Seq::<char>::empty(),
            toast@.body == Seq::<char>::empty(),
            toast@.toast_type == ToastType::Primary,
            is_random_id(toast@.id),
    {
        Toast { title: String::new(), body: String::new(), toast_type: ToastType::Primary, id: fresh_id() }
    }
}

impl Clone for Toast {
    /// A copy with the same four parts, the identifier included.
    fn clone(&self) -> (copy: Self)
        ensures
            copy == *self,
    {
        Toast {
            title: self.title.clone(),
            body: self.body.clone(),
            toast_type: self.toast_type,
            id: self.id,
        }
    }
}

impl vstd::std_specs::cmp::PartialEqSpecImpl for Toast {
    open spec fn obeys_eq_spec() -> bool {
        true
    }

    open spec fn eq_spec(&self, other: &Self) -> bool {
        self@ == other@
    }
}

impl PartialEq for Toast {
    /// Two toasts are equal when title, body, severity and identifier are.
    fn eq(&self, other: &Self) -> (equal: bool) {
        self.title == other.title && self.body == other.body && self.toast_type == other.toast_type
            && self.id == other.id
    }
}

impl Eq for Toast {

}

} // verus!
