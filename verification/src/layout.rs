use crate::text::is_blank;
use crate::toast::{icon_directory, icon_extension, Toast, ToastParts};
use vstd::prelude::*;
use vstd::string::StringExecFns;

verus! {

/// The text of a rendered toast.
#[derive(Debug, PartialEq, Eq)]
pub enum TextBlock {
    /// The title alone, in bold.
    TitleOnly { title: String },
    /// The title in bold, and the body below it.
    TitleAndBody { title: String, body: String },
}

/// What the default view shows of a toast, from left to right: the icon, the
/// text, and then the close button; `style` is the inline style of the frame
/// around them.
#[derive(Debug, PartialEq, Eq)]
pub struct ToastLayout {
    pub style: String,
    pub icon_path: String,
    pub text: TextBlock,
}

/// The start of the inline style of a toast's frame; the colour follows.
pub open spec fn style_prefix() -> Seq<char> {
    "border-color: "@
}

/// Whether `layout` is how the default view shows a toast with the parts
/// `toast`: frame and icon go by the severity, and the body is shown unless
/// it is blank.
pub open spec fn is_layout_of(layout: ToastLayout, toast: ToastParts) -> bool {
    &&& layout.style@ == style_prefix() + toast.toast_type.border_color_spec()
    &&& layout.icon_path@ == icon_directory() + toast.toast_type.icon_token_spec()
        + icon_extension()
    &&& match layout.text {
        TextBlock::TitleOnly { title } => is_blank(toast.body) && title@ == toast.title,
        TextBlock::TitleAndBody { title, body } => !is_blank(toast.body) && title@ == toast.title
            && body@ == toast.body,
    }
}

/// How the default view shows `toast`.
pub fn layout_of(toast: &Toast) -> (layout: ToastLayout)
    ensures
        is_layout_of(layout, toast@),
{
    let mut style = String::from_str("border-color: ");
    style.append(toast.toast_type().border_color());
    let title = String::from_str(toast.title());
    let text = if toast.is_title_only() {
        TextBlock::TitleOnly { title }
    } else {
        TextBlock::TitleAndBody { title, body: String::from_str(toast.body_text()) }
    };
    ToastLayout { style, icon_path: toast.toast_type().icon_path(), text }
}

} // verus!
