//! The read-only preview of a file: what is shown of it, and what its keys do.

use vstd::prelude::*;
use vstd::string::*;
use crate::paths;
use crate::paths::{parent_path, path_file_name};
use crate::text;
use crate::text::{copy_optional_text, decimal_text, same_text};

verus! {

/// Larger files are not previewed.
pub const PEEK_MAX_RENDER_BYTES: u64 = 1048576;

/// How a file is shown.
#[derive(Debug, Clone, Copy, PartialEq, Eq, Structural)]
pub enum PeekClass {
    Text,
    Image,
    Binary,
    TooLarge,
}

/// What reading a file for its preview gave.
#[derive(Debug, Clone, PartialEq, Eq)]
pub enum PeekLoad {
    Text(String),
    Image(Vec<u8>),
    Binary,
    TooLarge(u64),
    Error(String),
}

/// The main media type that the name of a file suggests.
pub uninterp spec fn guessed_type(path: Seq<char>) -> Seq<char>;

/// The main type of `mime_guess::from_path(..).first_or_octet_stream()`, which depends on
/// the path alone. Which extension has which type is left to that crate.
#[verifier::external_body]
fn guess_type(path: &str) -> (r: String)
    ensures
        r@ == guessed_type(path@),
{
    mime_guess::from_path(path).first_or_octet_stream().type_().as_str().to_string()
}

/// Whether the name of a file suggests an image.
pub fn is_image_path(path: &str) -> (r: bool)
    ensures
        r == (guessed_type(path@) == "image"@),
{
    same_text(guess_type(path).as_str(), "image")
}

/// Whether content is not text: it holds a zero byte.
pub fn looks_binary(head: &[u8]) -> (r: bool)
    ensures
        r == head@.contains(0u8),
{
    let mut i: usize = 0;
    while i < head.len()
        invariant
            i <= head@.len(),
            forall|k: int| 0 <= k < i ==> head@[k] != 0,
        decreases head@.len() - i,
    {
        if head[i] == 0 {
            assert(head@[i as int] == 0);
            return true;
        }
        i += 1;
    }
    false
}

/// How a file of this size and content is shown, by its name an image or not: a large one
/// not at all, an image as one, anything with a zero byte not as text.
pub open spec fn class_of(is_image: bool, size: u64, head: Seq<u8>, cap: u64) -> PeekClass {
    if size > cap {
        PeekClass::TooLarge
    } else if is_image {
        PeekClass::Image
    } else if head.contains(0u8) {
        PeekClass::Binary
    } else {
        PeekClass::Text
    }
}

/// How a file of this size and content is shown, by its name an image or not.
pub fn classify_as(is_image: bool, size: u64, head: &[u8], cap: u64) -> (r: PeekClass)
    ensures
        r == class_of(is_image, size, head@, cap),
{
    if size > cap {
        PeekClass::TooLarge
    } else if is_image {
        PeekClass::Image
    } else if looks_binary(head) {
        PeekClass::Binary
    } else {
        PeekClass::Text
    }
}

/// How a file is shown, by its name, its size and its content.
pub fn classify(path: &str, size: u64, head: &[u8], cap: u64) -> (r: PeekClass)
    ensures
        r == class_of(guessed_type(path@) == "image"@, size, head@, cap),
{
    classify_as(is_image_path(path), size, head, cap)
}

/// The text of bytes, with what is not UTF-8 replaced.
pub uninterp spec fn lossy_text(bytes: Seq<u8>) -> Seq<char>;

/// `String::from_utf8_lossy`: the result depends on the bytes alone, and bytes that are
/// UTF-8 are taken as they are. What stands for other bytes is left to std.
#[verifier::external_body]
fn text_from_bytes(bytes: &[u8]) -> (r: String)
    ensures
        r@ == lossy_text(bytes@),
        vstd::utf8::valid_utf8(bytes@) ==> vstd::utf8::encode_utf8(r@) == bytes@,
{
    String::from_utf8_lossy(bytes).into_owned()
}

/// What the first look at a file gave: whether it is a regular file, and its size.
#[derive(Debug, Clone, Copy, PartialEq, Eq, Structural)]
pub struct FileFacts {
    pub is_file: bool,
    pub size: u64,
}

/// The mathematical value of a [`PeekLoad`].
pub enum PeekLoadView {
    Text(Seq<char>),
    Image(Seq<u8>),
    Binary,
    TooLarge(u64),
    Error(Seq<char>),
}

impl DeepView for PeekLoad {
    type V = PeekLoadView;

    open spec fn deep_view(&self) -> PeekLoadView {
        match self {
            PeekLoad::Text(s) => PeekLoadView::Text(s@),
            PeekLoad::Image(bytes) => PeekLoadView::Image(bytes@),
            PeekLoad::Binary => PeekLoadView::Binary,
            PeekLoad::TooLarge(size) => PeekLoadView::TooLarge(*size),
            PeekLoad::Error(message) => PeekLoadView::Error(message@),
        }
    }
}

/// What is settled before a file is read: nothing where it is to be read.
pub open spec fn settled_before_reading(
    facts: Result<FileFacts, String>,
    cap: u64,
) -> Option<PeekLoadView> {
    match facts {
        Err(error) => Some(PeekLoadView::Error("Could not read file metadata: "@ + error@)),
        Ok(facts) => if !facts.is_file {
            Some(PeekLoadView::Error("Could not peek path: not a regular file"@))
        } else if facts.size > cap {
            Some(PeekLoadView::TooLarge(facts.size))
        } else {
            None
        },
    }
}

/// What is settled before a file is read, from the first look at it. A file that is too
/// large is never read.
pub fn peek_before_reading(facts: &Result<FileFacts, String>, cap: u64) -> (r: Option<PeekLoad>)
    ensures
        r.deep_view() == settled_before_reading(*facts, cap),
{
    match facts {
        Err(error) => {
            let mut message = "Could not read file metadata: ".to_owned();
            message.append(error.as_str());
            Some(PeekLoad::Error(message))
        },
        Ok(facts) => {
            if !facts.is_file {
                Some(PeekLoad::Error("Could not peek path: not a regular file".to_owned()))
            } else if facts.size > cap {
                Some(PeekLoad::TooLarge(facts.size))
            } else {
                None
            }
        },
    }
}

/// What a file of this class and content is loaded as; `lossy` is the text of its bytes.
pub open spec fn loaded_as(
    class: PeekClass,
    size: u64,
    bytes: Seq<u8>,
    lossy: Seq<char>,
) -> PeekLoadView {
    match class {
        PeekClass::TooLarge => PeekLoadView::TooLarge(size),
        PeekClass::Image => PeekLoadView::Image(bytes),
        PeekClass::Binary => PeekLoadView::Binary,
        PeekClass::Text => PeekLoadView::Text(lossy),
    }
}

/// What a file is loaded as, from what reading it gave.
pub fn load_peek_data(
    path: &str,
    size: u64,
    read: Result<Vec<u8>, String>,
    cap: u64,
) -> (r: PeekLoad)
    ensures
        r.deep_view() == match read {
            Err(error) => PeekLoadView::Error("Could not read file: "@ + error@),
            Ok(bytes) => loaded_as(
                class_of(guessed_type(path@) == "image"@, size, bytes@, cap),
                size,
                bytes@,
                lossy_text(bytes@),
            ),
        },
{
    match read {
        Err(error) => {
            let mut message = "Could not read file: ".to_owned();
            message.append(error.as_str());
            PeekLoad::Error(message)
        },
        Ok(bytes) => match classify(path, size, bytes.as_slice(), cap) {
            PeekClass::TooLarge => PeekLoad::TooLarge(size),
            PeekClass::Image => PeekLoad::Image(bytes),
            PeekClass::Binary => PeekLoad::Binary,
            PeekClass::Text => PeekLoad::Text(text_from_bytes(bytes.as_slice())),
        },
    }
}

/// `a / b` rounded to the nearest whole number, halves to the even one.
pub open spec fn rounded_quotient(a: nat, b: nat) -> nat {
    let q = a / b;
    let r = a % b;
    if 2 * r > b || (2 * r == b && q % 2 == 1) {
        q + 1
    } else {
        q
    }
}

/// The distance between the neighbours of `n` among the numbers with 53 binary digits.
pub open spec fn double_step(n: nat) -> nat
    decreases n,
{
    if n < 0x20_0000_0000_0000 {
        1
    } else {
        2 * double_step(n / 2)
    }
}

/// `n` as a double-precision number: rounded to 53 binary digits.
pub open spec fn as_double(n: nat) -> nat {
    rounded_quotient(n, double_step(n)) * double_step(n)
}

/// The tenths of `n`, as a double-precision number, in units of `unit`.
pub open spec fn size_tenths(n: nat, unit: nat) -> nat {
    rounded_quotient(10 * as_double(n), unit)
}

/// A number of tenths with one digit behind the point.
pub open spec fn tenths_text(tenths: nat) -> Seq<char> {
    text::decimal(tenths / 10) + "."@ + text::decimal(tenths % 10)
}

/// A size as it is shown: in bytes, or with one digit behind the point in the largest
/// unit that it reaches.
pub open spec fn size_text(bytes: u64) -> Seq<char> {
    if bytes >= 0x4000_0000 {
        tenths_text(size_tenths(bytes as nat, 0x4000_0000)) + " GB"@
    } else if bytes >= 0x10_0000 {
        tenths_text(size_tenths(bytes as nat, 0x10_0000)) + " MB"@
    } else if bytes >= 0x400 {
        tenths_text(size_tenths(bytes as nat, 0x400)) + " KB"@
    } else {
        text::decimal(bytes as nat) + " B"@
    }
}

fn round_quotient(a: u128, b: u128) -> (r: u128)
    requires
        0 < b,
        b <= 0x1_0000_0000_0000_0000,
        a < 0x1_0000_0000_0000_0000_0000_0000,
    ensures
        r == rounded_quotient(a as nat, b as nat),
        r <= a / b + 1,
{
    let q: u128 = a / b;
    let rest: u128 = a % b;
    assert(q <= a) by (nonlinear_arith)
        requires
            q == a / b,
            b > 0,
    ;
    if 2 * rest > b || (2 * rest == b && q % 2 == 1) {
        q + 1
    } else {
        q
    }
}

fn step_of(n: u64) -> (r: u64)
    ensures
        r == double_step(n as nat),
        0 < r,
        n < 0x20_0000_0000_0000 ==> r == 1,
        n >= 0x20_0000_0000_0000 ==> r * 0x10_0000_0000_0000 <= n,
        r < 4096,
    decreases n,
{
    if n < 0x20_0000_0000_0000 {
        1
    } else {
        let half: u64 = step_of(n / 2);
        2 * half
    }
}

fn double_of(n: u64) -> (r: u128)
    ensures
        r == as_double(n as nat),
        r <= n + 4096,
{
    let step: u64 = step_of(n);
    let q: u128 = round_quotient(n as u128, step as u128);
    assert(q * step <= n + step) by (nonlinear_arith)
        requires
            q <= n as u128 / step as u128 + 1,
            step > 0,
    ;
    q * step as u128
}

fn text_of_tenths(n: u64, unit: u64) -> (r: String)
    requires
        unit == 0x400 || unit == 0x10_0000 || unit == 0x4000_0000,
    ensures
        r@ == tenths_text(size_tenths(n as nat, unit as nat)),
{
    let value: u128 = double_of(n);
    let scaled: u128 = 10 * value;
    let tenths: u128 = round_quotient(scaled, unit as u128);
    assert(scaled / (unit as u128) <= scaled / 0x400) by (nonlinear_arith)
        requires
            unit >= 0x400,
    ;
    let whole: u128 = tenths / 10;
    let digit: u128 = tenths % 10;
    let mut out = decimal_text(whole as u64);
    out.append(".");
    out.append(decimal_text(digit as u64).as_str());
    out
}

/// A size as it is shown.
pub fn human_size(bytes: u64) -> (r: String)
    ensures
        r@ == size_text(bytes),
{
    if bytes >= 0x4000_0000 {
        let mut out = text_of_tenths(bytes, 0x4000_0000);
        out.append(" GB");
        out
    } else if bytes >= 0x10_0000 {
        let mut out = text_of_tenths(bytes, 0x10_0000);
        out.append(" MB");
        out
    } else if bytes >= 0x400 {
        let mut out = text_of_tenths(bytes, 0x400);
        out.append(" KB");
        out
    } else {
        let mut out = decimal_text(bytes);
        out.append(" B");
        out
    }
}

/// The file in the preview.
#[derive(Debug, Clone, PartialEq, Eq)]
pub struct PeekTarget {
    pub path: String,
    pub line: u32,
    pub col: Option<u32>,
    /// The text of the file, once it is loaded.
    pub content: Option<String>,
}

/// What the preview shows.
#[derive(Debug, Clone, PartialEq, Eq)]
pub enum PeekPage {
    Loading,
    /// The text of the file, at a line where it is not the first.
    Text { content: String, scroll_to: Option<u32> },
    /// An image, and the file to decode it from where its bytes cannot be.
    Image { bytes: Vec<u8>, path: Option<String> },
    /// A message in place of the content.
    Summary(String),
}

/// The mathematical value of a [`PeekPage`].
pub enum PageView {
    Loading,
    Text { content: Seq<char>, scroll_to: Option<u32> },
    Image { bytes: Seq<u8>, path: Option<Seq<char>> },
    Summary(Seq<char>),
}

impl DeepView for PeekPage {
    type V = PageView;

    open spec fn deep_view(&self) -> PageView {
        match self {
            PeekPage::Loading => PageView::Loading,
            PeekPage::Text { content, scroll_to } => PageView::Text {
                content: content@,
                scroll_to: *scroll_to,
            },
            PeekPage::Image { bytes, path } => PageView::Image {
                bytes: bytes@,
                path: path.deep_view(),
            },
            PeekPage::Summary(message) => PageView::Summary(message@),
        }
    }
}

/// What a key does to the preview.
#[derive(Debug, Clone, Copy, PartialEq, Eq, Structural)]
pub enum PeekKey {
    Hide,
    Eject,
    CopyContent,
    CopyPath,
    /// The key is left to others.
    Proceed,
}

/// What a key does: Escape closes, `e` opens the editor, `c` copies the content, `y` the
/// path. All other keys are left to others.
pub fn peek_key(is_escape: bool, ch: Option<char>) -> (r: PeekKey)
    ensures
        r == if is_escape {
            PeekKey::Hide
        } else if ch == Some('e') || ch == Some('E') {
            PeekKey::Eject
        } else if ch == Some('c') || ch == Some('C') {
            PeekKey::CopyContent
        } else if ch == Some('y') || ch == Some('Y') {
            PeekKey::CopyPath
        } else {
            PeekKey::Proceed
        },
{
    if is_escape {
        return PeekKey::Hide;
    }
    match ch {
        Some(c) => {
            if c == 'e' || c == 'E' {
                PeekKey::Eject
            } else if c == 'c' || c == 'C' {
                PeekKey::CopyContent
            } else if c == 'y' || c == 'Y' {
                PeekKey::CopyPath
            } else {
                PeekKey::Proceed
            }
        },
        None => PeekKey::Proceed,
    }
}

/// The preview: the file in it, what it shows, and which load is awaited.
#[derive(Debug, Clone, PartialEq, Eq)]
pub struct PeekState {
    pub visible: bool,
    pub title: String,
    pub subtitle: String,
    pub current: Option<PeekTarget>,
    pub page: PeekPage,
    pub generation: u64,
}

/// The line, counted from 0, that a preview at `line` scrolls to; none for the first.
pub open spec fn scroll_line(line: u32) -> Option<u32> {
    if line <= 1 {
        None
    } else {
        Some((line - 1) as u32)
    }
}

/// The message for a file of this size that is too large.
pub open spec fn too_large_message(size: u64) -> Seq<char> {
    "File is "@ + size_text(size) + " — too large to preview (limit "@ + size_text(
        PEEK_MAX_RENDER_BYTES,
    ) + ")."@
}

/// Whether the state came out of another by opening the preview of a file.
pub open spec fn shown_for(
    before: PeekState,
    after: PeekState,
    path: Seq<char>,
    line: Option<u32>,
    col: Option<u32>,
) -> bool {
    &&& after.generation == before.generation.wrapping_add(1)
    &&& after.visible
    &&& after.page is Loading
    &&& after.title@ == match paths::file_name(path) {
        Some(name) => name,
        None => path,
    }
    &&& after.subtitle@ == match paths::parent(path) {
        Some(dir) => dir,
        None => ""@,
    }
    &&& after.current matches Some(target)
    &&& target.path@ == path
    &&& target.line == match line {
        Some(line) => line,
        None => 1,
    }
    &&& target.col == col
    &&& target.content is None
}

/// Whether the state came out of another by handing it what the load of this generation
/// gave, and whether that was used.
pub open spec fn load_applied(
    before: PeekState,
    after: PeekState,
    generation: u64,
    load: PeekLoadView,
    used: bool,
) -> bool {
    &&& used == (before.generation == generation)
    &&& !used ==> after == before
    &&& used ==> {
        &&& after.page.deep_view() == before.page_for(load)
        &&& after.visible == before.visible
        &&& after.title == before.title
        &&& after.subtitle == before.subtitle
        &&& after.generation == before.generation
        &&& match (before.current, after.current) {
            (Some(target), Some(loaded)) => {
                &&& loaded.path == target.path
                &&& loaded.line == target.line
                &&& loaded.col == target.col
                &&& loaded.content.deep_view() == match load {
                    PeekLoadView::Text(content) => Some(content),
                    _ => target.content.deep_view(),
                }
            },
            (None, None) => true,
            _ => false,
        }
    }
}

impl PeekState {
    /// The page that a load leads to.
    pub open spec fn page_for(self, load: PeekLoadView) -> PageView {
        match load {
            PeekLoadView::Text(content) => PageView::Text {
                content,
                scroll_to: match self.current {
                    Some(target) => scroll_line(target.line),
                    None => None,
                },
            },
            PeekLoadView::Image(bytes) => PageView::Image {
                bytes,
                path: match self.current {
                    Some(target) => Some(target.path@),
                    None => None,
                },
            },
            PeekLoadView::Binary => PageView::Summary(
                "This looks like a binary file, so it is not previewed."@,
            ),
            PeekLoadView::TooLarge(size) => PageView::Summary(too_large_message(size)),
            PeekLoadView::Error(message) => PageView::Summary(message),
        }
    }

    /// A preview that is closed.
    pub fn new() -> (r: PeekState)
        ensures
            !r.visible,
            r.current is None,
            r.generation == 0,
            r.page is Loading,
            r.title@.len() == 0,
            r.subtitle@.len() == 0,
    {
        PeekState {
            visible: false,
            title: String::new(),
            subtitle: String::new(),
            current: None,
            page: PeekPage::Loading,
            generation: 0,
        }
    }

    /// Open the preview of a file, at a line where one is known. The result names the
    /// load that is now awaited.
    pub fn show_for(&mut self, path: &str, line: Option<u32>, col: Option<u32>) -> (r: u64)
        ensures
            shown_for(*old(self), *final(self), path@, line, col),
            r == final(self).generation,
    {
        self.generation = self.generation.wrapping_add(1);
        self.title = match path_file_name(path) {
            Some(name) => name,
            None => path.to_owned(),
        };
        self.subtitle = match parent_path(path) {
            Some(dir) => dir,
            None => "".to_owned(),
        };
        let line: u32 = match line {
            Some(line) => line,
            None => 1,
        };
        self.current = Some(PeekTarget { path: path.to_owned(), line, col, content: None });
        self.page = PeekPage::Loading;
        self.visible = true;
        self.generation
    }

    /// Show what a load gave. The load of a preview that another one has replaced is
    /// dropped; the result says whether it was used.
    pub fn apply_load(&mut self, generation: u64, load: PeekLoad) -> (r: bool)
        ensures
            load_applied(*old(self), *final(self), generation, load.deep_view(), r),
    {
        if self.generation != generation {
            return false;
        }
        match load {
            PeekLoad::Text(content) => {
                let mut scroll_to: Option<u32> = None;
                if let Some(target) = &mut self.current {
                    if target.line > 1 {
                        scroll_to = Some(target.line - 1);
                    }
                    target.content = Some(content.clone());
                }
                self.page = PeekPage::Text { content, scroll_to };
            },
            PeekLoad::Image(bytes) => {
                let path = match &self.current {
                    Some(target) => Some(target.path.clone()),
                    None => None,
                };
                self.page = PeekPage::Image { bytes, path };
            },
            PeekLoad::Binary => {
                self.page = PeekPage::Summary(
                    "This looks like a binary file, so it is not previewed.".to_owned(),
                );
            },
            PeekLoad::TooLarge(size) => {
                let mut message = "File is ".to_owned();
                message.append(human_size(size).as_str());
                message.append(" — too large to preview (limit ");
                message.append(human_size(PEEK_MAX_RENDER_BYTES).as_str());
                message.append(").");
                self.page = PeekPage::Summary(message);
            },
            PeekLoad::Error(message) => {
                self.page = PeekPage::Summary(message);
            },
        }
        true
    }

    /// Close the preview if it is open; the result says whether it was. The file stays in
    /// it.
    pub fn dismiss_if_visible(&mut self) -> (r: bool)
        ensures
            r == old(self).visible,
            *final(self) == (PeekState { visible: false, ..*old(self) }),
    {
        let was_visible = self.visible;
        self.visible = false;
        was_visible
    }

    /// Close the preview and give the file to open in the editor, with its line and
    /// column; without a file nothing happens.
    pub fn eject(&mut self) -> (r: Option<(String, u32, Option<u32>)>)
        ensures
            match old(self).current {
                Some(target) => r == Some((target.path, target.line, target.col)) && *final(self) == (
                PeekState { visible: false, ..*old(self) }),
                None => r is None && *final(self) == *old(self),
            },
    {
        match &self.current {
            Some(target) => {
                let place = (target.path.clone(), target.line, target.col);
                self.visible = false;
                Some(place)
            },
            None => None,
        }
    }

    /// The loaded text, to be copied.
    pub fn content_to_copy(&self) -> (r: Option<String>)
        ensures
            r == match self.current {
                Some(target) => target.content,
                None => None,
            },
    {
        match &self.current {
            Some(target) => copy_optional_text(&target.content),
            None => None,
        }
    }

    /// The path of the file, to be copied.
    pub fn path_to_copy(&self) -> (r: Option<String>)
        ensures
            r == match self.current {
                Some(target) => Some(target.path),
                None => None,
            },
    {
        match &self.current {
            Some(target) => Some(target.path.clone()),
            None => None,
        }
    }
}

/// A load that another preview has replaced changes nothing: after one more preview was
/// opened, the load of the one before is not used, and the state stays as it was.
pub proof fn law_replaced_loads_are_dropped(
    before: PeekState,
    shown: PeekState,
    after: PeekState,
    path: Seq<char>,
    line: Option<u32>,
    col: Option<u32>,
    load: PeekLoadView,
    used: bool,
)
    requires
        shown_for(before, shown, path, line, col),
        load_applied(shown, after, before.generation, load, used),
    ensures
        !used,
        after == shown,
{
}

/// The load of the preview that was opened last is used: the page shows what it gave.
pub proof fn law_awaited_loads_are_used(
    before: PeekState,
    shown: PeekState,
    after: PeekState,
    path: Seq<char>,
    line: Option<u32>,
    col: Option<u32>,
    load: PeekLoadView,
    used: bool,
)
    requires
        shown_for(before, shown, path, line, col),
        load_applied(shown, after, shown.generation, load, used),
    ensures
        used,
        after.page.deep_view() == shown.page_for(load),
        after.current matches Some(target) && target.path@ == path,
{
}

/// A file is classified by its size first, as an image by its name, and as binary where a
/// zero byte stands in it; everything else is text.
pub proof fn law_classes_of_files(is_image: bool, size: u64, head: Seq<u8>, cap: u64)
    ensures
        size > cap ==> class_of(is_image, size, head, cap) == PeekClass::TooLarge,
        size <= cap && is_image ==> class_of(is_image, size, head, cap) == PeekClass::Image,
        size <= cap && !is_image && head.contains(0u8) ==> class_of(is_image, size, head, cap)
            == PeekClass::Binary,
        size <= cap && !is_image && !head.contains(0u8) ==> class_of(is_image, size, head, cap)
            == PeekClass::Text,
        PEEK_MAX_RENDER_BYTES == 1024 * 1024,
{
}

/// A file is read only where it is a regular one that is not too large.
pub proof fn law_what_is_read(facts: FileFacts, error: String, cap: u64)
    ensures
        settled_before_reading(Err(error), cap) == Some(
            PeekLoadView::Error("Could not read file metadata: "@ + error@),
        ),
        !facts.is_file ==> settled_before_reading(Ok(facts), cap) == Some(
            PeekLoadView::Error("Could not peek path: not a regular file"@),
        ),
        facts.is_file && facts.size > cap ==> settled_before_reading(Ok(facts), cap) == Some(
            PeekLoadView::TooLarge(facts.size),
        ),
        facts.is_file && facts.size <= cap ==> settled_before_reading(Ok(facts), cap) is None,
{
}

/// What a file is shown as goes by its class.
pub proof fn law_what_files_are_shown_as(size: u64, bytes: Seq<u8>, lossy: Seq<char>)
    ensures
        loaded_as(PeekClass::TooLarge, size, bytes, lossy) == PeekLoadView::TooLarge(size),
        loaded_as(PeekClass::Image, size, bytes, lossy) == PeekLoadView::Image(bytes),
        loaded_as(PeekClass::Binary, size, bytes, lossy) == PeekLoadView::Binary,
        loaded_as(PeekClass::Text, size, bytes, lossy) == PeekLoadView::Text(lossy),
{
}

/// A quotient is rounded to the nearest whole number, and to the even one of two that are as
/// near.
pub proof fn law_rounding(a: nat, b: nat)
    requires
        b > 0,
    ensures
        2 * (a - rounded_quotient(a, b) * b) <= b,
        2 * (rounded_quotient(a, b) * b - a) <= b,
        2 * (a - rounded_quotient(a, b) * b) == b || 2 * (rounded_quotient(a, b) * b - a) == b
            ==> rounded_quotient(a, b) % 2 == 0,
{
    let q = a / b;
    let r = a % b;
    vstd::arithmetic::div_mod::lemma_fundamental_div_mod(a as int, b as int);
    assert(q * b == b * q) by (nonlinear_arith);
    assert((q + 1) * b == q * b + b) by (nonlinear_arith);
}

/// Sizes are shown in bytes below a kilobyte, and else in the largest unit that they reach,
/// with one digit behind the point; whole multiples of a unit are shown exactly.
pub proof fn law_sizes_are_shown_in_units(bytes: u64, k: nat)
    ensures
        bytes < 1024 ==> size_text(bytes) == text::decimal(bytes as nat) + " B"@,
        1 <= k < 1024 && bytes == k * 1024 ==> size_text(bytes) == text::decimal(k) + "."@ + seq![
            '0',
        ] + " KB"@,
        1 <= k < 1024 && bytes == k * 1024 * 1024 ==> size_text(bytes) == text::decimal(k) + "."@
            + seq!['0'] + " MB"@,
        1 <= k < 1024 && bytes == k * 1024 * 1024 * 1024 ==> size_text(bytes) == text::decimal(k)
            + "."@ + seq!['0'] + " GB"@,
{
    if 1 <= k < 1024 {
        lemma_whole_units(k, 1024);
        lemma_whole_units(k, 1024 * 1024);
        lemma_whole_units(k, 1024 * 1024 * 1024);
        assert(k * 1024 * 1024 == k * (1024 * 1024)) by (nonlinear_arith);
        assert(k * 1024 * 1024 * 1024 == k * (1024 * 1024 * 1024)) by (nonlinear_arith);
    }
}

/// A whole number of units has no tenths.
proof fn lemma_whole_units(k: nat, unit: nat)
    requires
        1 <= k < 1024,
        unit == 1024 || unit == 1024 * 1024 || unit == 1024 * 1024 * 1024,
    ensures
        size_tenths(k * unit, unit) == 10 * k,
        tenths_text(10 * k) == text::decimal(k) + "."@ + seq!['0'],
{
    let n = k * unit;
    assert(n < 0x20_0000_0000_0000) by (nonlinear_arith)
        requires
            n == k * unit,
            1 <= k < 1024,
            unit <= 1024 * 1024 * 1024,
    ;
    assert(double_step(n) == 1);
    assert(n / 1 == n && n % 1 == 0);
    assert(rounded_quotient(n, 1) == n);
    assert(as_double(n) == n);
    assert(10 * n == (10 * k) * unit) by (nonlinear_arith)
        requires
            n == k * unit,
    ;
    vstd::arithmetic::div_mod::lemma_div_multiples_vanish((10 * k) as int, unit as int);
    vstd::arithmetic::div_mod::lemma_mod_multiples_basic((10 * k) as int, unit as int);
    assert(unit * (10 * k) == (10 * k) * unit) by (nonlinear_arith);
    assert((10 * k) / 10 == k && (10 * k) % 10 == 0);
    assert(text::decimal(0) =~= seq!['0']);
}

/// A text is shown at the line that was asked for, counted from one; the first needs no
/// scrolling. What cannot be shown is explained.
pub proof fn law_pages_of_loads(state: PeekState, content: Seq<char>, bytes: Seq<u8>, size: u64)
    requires
        state.current is Some,
    ensures
        ({
            let line = state.current->0.line;
            &&& state.page_for(PeekLoadView::Text(content)) matches PageView::Text {
                content: shown,
                scroll_to,
            } && shown == content && (line <= 1 ==> scroll_to is None) && (line > 1 ==> scroll_to
                == Some((line - 1) as u32))
            &&& state.page_for(PeekLoadView::Image(bytes)) == (PageView::Image {
                bytes,
                path: Some(state.current->0.path@),
            })
            &&& state.page_for(PeekLoadView::Binary) == PageView::Summary(
                "This looks like a binary file, so it is not previewed."@,
            )
            &&& state.page_for(PeekLoadView::TooLarge(size)) == PageView::Summary(
                "File is "@ + size_text(size) + " — too large to preview (limit "@ + size_text(
                    1048576,
                ) + ")."@,
            )
            &&& state.page_for(PeekLoadView::Error(content)) == PageView::Summary(content)
        }),
{
}

/// A preview that is opened shows the file's name and directory, waits for its content, and
/// remembers the line and the column that were asked for.
pub proof fn law_opened_previews(
    before: PeekState,
    after: PeekState,
    dir: Seq<char>,
    name: Seq<char>,
    line: Option<u32>,
    col: Option<u32>,
)
    requires
        dir.len() > 0,
        dir.last() != '/',
        dir.last() != '.',
        name.len() > 0,
        !name.contains('/'),
        name != "."@,
        name != ".."@,
        shown_for(before, after, dir + seq!['/'] + name, line, col),
    ensures
        after.visible,
        after.page is Loading,
        after.title@ == name,
        after.subtitle@ == dir,
        after.current matches Some(target) && target.path@ == dir + seq!['/'] + name && target.col
            == col && target.content is None && (line matches Some(l) ==> target.line == l) && (
        line is None ==> target.line == 1),
        after.generation != before.generation,
{
    paths::law_names_and_directories(dir, name);
}

/// A load keeps the preview open at its file, and the content of a text is kept for copying.
pub proof fn law_used_loads(
    before: PeekState,
    after: PeekState,
    load: PeekLoadView,
    content: Seq<char>,
)
    requires
        load_applied(before, after, before.generation, load, true),
        before.current is Some,
    ensures
        after.visible == before.visible,
        after.title == before.title,
        after.generation == before.generation,
        after.current matches Some(target) && target.path == before.current->0.path && target.line
            == before.current->0.line && (load == PeekLoadView::Text(content)
            ==> target.content.deep_view() == Some(content)),
{
}

/// A double-precision number has 53 binary digits: below 2 to the 53rd every whole number
/// is one, and beyond it the distance between neighbours is such that 53 digits of it
/// cover the number.
pub proof fn law_double_precision(n: nat)
    ensures
        n < 0x20_0000_0000_0000 ==> as_double(n) == n,
        0x20_0000_0000_0000 <= n < 0x40_0000_0000_0000 ==> double_step(n) == 2,
        n >= 0x20_0000_0000_0000 ==> 0x10_0000_0000_0000 * double_step(n) <= n
            < 0x20_0000_0000_0000 * double_step(n),
    decreases n,
{
    reveal_with_fuel(double_step, 2);
    if n < 0x20_0000_0000_0000 {
        assert(n / 1 == n && n % 1 == 0);
        assert(double_step(n) == 1);
        assert(rounded_quotient(n, 1) == n);
    } else {
        law_double_precision(n / 2);
    }
}

} // verus!
