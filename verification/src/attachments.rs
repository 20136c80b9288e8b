//! The files of messages: which are images, how they are cached and how they are listed.
use vstd::prelude::*;
use vstd::string::*;

use crate::models::{AttachmentKind, AttachmentSummary, AttachmentSummaryModel};
use crate::slack::{SlackFile, SlackFileModel, SlackUser, SlackUserModel, SlackUserProfileModel};
use crate::text::{
    after_prefix, begins_with, blank, is_blank, lowercase, owned, same_text, slice_text, split,
    split_text, starts_with, to_chars,
};
use crate::urls::{join_url, joined_url, parse_url, parsed_url, WebUrl, WebUrlModel};

verus! {

/// How many requests a download makes at most.
pub const DOWNLOAD_ATTEMPTS: u8 = 5;

/// The first of two values that is given.
pub open spec fn first_given(first: Option<Seq<char>>, second: Option<Seq<char>>) -> Option<
    Seq<char>,
> {
    match first {
        Some(value) => Some(value),
        None => second,
    }
}

/// A name that is given and not blank.
pub open spec fn not_blank(name: Option<Seq<char>>) -> Option<Seq<char>> {
    match name {
        Some(name) => if is_blank(name) {
            None
        } else {
            Some(name)
        },
        None => None,
    }
}

impl SlackUserProfileModel {
    /// The name that the user wants to be shown with.
    pub open spec fn shown_name(self) -> Option<Seq<char>> {
        first_given(
            not_blank(self.display_name_normalized),
            first_given(
                not_blank(self.display_name),
                first_given(not_blank(self.real_name_normalized), not_blank(self.real_name)),
            ),
        )
    }
}

impl SlackUserModel {
    /// The name of the user: the one of their profile, else that of their account.
    pub open spec fn shown_name(self) -> Option<Seq<char>> {
        first_given(
            match self.profile {
                Some(profile) => profile.shown_name(),
                None => None,
            },
            not_blank(self.name),
        )
    }

    /// Where the picture of the user is: the one of medium size, else the large one, else the
    /// small one.
    pub open spec fn avatar_url(self) -> Option<Seq<char>> {
        match self.profile {
            Some(profile) => first_given(
                profile.image_72,
                first_given(profile.image_192, profile.image_48),
            ),
            None => None,
        }
    }
}

/// A copy of a name that is given and not blank.
fn copy_not_blank(name: &Option<String>) -> (r: Option<String>)
    ensures
        r.deep_view() == not_blank(name.deep_view()),
{
    match name {
        Some(name) => if blank(name.as_str()) {
            None
        } else {
            Some(name.clone())
        },
        None => None,
    }
}

/// The first of two values that is given.
fn or_else(first: Option<String>, second: Option<String>) -> (r: Option<String>)
    ensures
        r.deep_view() == first_given(first.deep_view(), second.deep_view()),
{
    match first {
        Some(value) => Some(value),
        None => second,
    }
}

/// The name of a user.
pub fn slack_user_display_name(user: &SlackUser) -> (r: Option<String>)
    ensures
        r.deep_view() == user.deep_view().shown_name(),
{
    let from_profile = match &user.profile {
        Some(profile) => or_else(
            copy_not_blank(&profile.display_name_normalized),
            or_else(
                copy_not_blank(&profile.display_name),
                or_else(
                    copy_not_blank(&profile.real_name_normalized),
                    copy_not_blank(&profile.real_name),
                ),
            ),
        ),
        None => None,
    };
    or_else(from_profile, copy_not_blank(&user.name))
}

/// Where the picture of a user is.
pub fn slack_user_avatar_url(user: &SlackUser) -> (r: Option<String>)
    ensures
        r.deep_view() == user.deep_view().avatar_url(),
{
    match &user.profile {
        Some(profile) => {
            let copy = profile.clone();
            or_else(copy.image_72, or_else(copy.image_192, copy.image_48))
        },
        None => None,
    }
}

/// Whether a part of a path names something: it is neither empty nor a single dot.
pub open spec fn names_something(part: Seq<char>) -> bool {
    part.len() > 0 && part != "."@
}

/// The last part of a path that names something.
pub open spec fn last_name(parts: Seq<Seq<char>>) -> Option<Seq<char>>
    decreases parts.len(),
{
    if parts.len() == 0 {
        None
    } else if names_something(parts.last()) {
        Some(parts.last())
    } else {
        last_name(parts.drop_last())
    }
}

/// The last position before `end` where `c` stands.
pub open spec fn rfind_char(text: Seq<char>, c: char, end: int) -> Option<int>
    decreases end,
{
    if end <= 0 || end > text.len() {
        None
    } else if text[end - 1] == c {
        Some(end - 1)
    } else {
        rfind_char(text, c, end - 1)
    }
}

/// The extension of the file that a path names: what follows the last dot of its name, unless the
/// name starts with that dot.
pub open spec fn path_extension(path: Seq<char>) -> Option<Seq<char>> {
    match last_name(split(path, '/')) {
        Some(name) => if name == ".."@ {
            None
        } else {
            match rfind_char(name, '.', name.len() as int) {
                Some(at) => if at == 0 {
                    None
                } else {
                    Some(name.skip(at + 1))
                },
                None => None,
            }
        },
        None => None,
    }
}

/// The extension of the file that a path names.
pub fn extension_of(path: &str) -> (r: Option<String>)
    ensures
        r.deep_view() == path_extension(path@),
{
    let parts = split_text(path, '/');
    let ghost all = parts.deep_view();
    let mut i: usize = parts.len();
    assert(all.take(i as int) =~= all);
    while i > 0
        invariant
            i <= parts.len(),
            all == parts.deep_view(),
            all == split(path@, '/'),
            last_name(all) == last_name(all.take(i as int)),
        decreases i,
    {
        assert(all.take(i as int).drop_last() =~= all.take(i - 1));
        assert(all.take(i as int).last() == parts@[i - 1]@);
        i -= 1;
        if !parts[i].as_str().is_empty() && !same_text(parts[i].as_str(), ".") {
            return extension_of_name(parts[i].as_str());
        }
    }
    None
}

/// The extension of a file name.
fn extension_of_name(name: &str) -> (r: Option<String>)
    ensures
        r.deep_view() == (if name@ == ".."@ {
            None
        } else {
            match rfind_char(name@, '.', name@.len() as int) {
                Some(at) => if at == 0 {
                    None
                } else {
                    Some(name@.skip(at + 1))
                },
                None => None,
            }
        }),
{
    if same_text(name, "..") {
        return None;
    }
    let chars = to_chars(name);
    let mut end: usize = chars.len();
    while end > 0
        invariant
            end <= chars.len(),
            chars@ == name@,
            name@ != ".."@,
            rfind_char(name@, '.', name@.len() as int) == rfind_char(name@, '.', end as int),
        decreases end,
    {
        if chars[end - 1] == '.' {
            if end == 1 {
                return None;
            }
            let extension = slice_text(&chars, end, chars.len());
            assert(extension@ =~= name@.skip(end as int));
            return Some(extension);
        }
        end -= 1;
    }
    None
}

/// The extension that a cached picture gets, from what its address is read as.
pub open spec fn picture_extension(address: Result<WebUrlModel, Seq<char>>) -> Seq<char> {
    match address {
        Ok(address) => match path_extension(address.path) {
            Some(extension) => if extension.len() > 0 {
                extension
            } else {
                "img"@
            },
            None => "img"@,
        },
        Err(_) => "img"@,
    }
}

/// The extension that a cached picture gets, from what its address is read as.
pub fn extension_of_address(address: &Result<WebUrl, String>) -> (r: String)
    ensures
        r@ == picture_extension(crate::urls::outcome(*address)),
{
    match address {
        Ok(address) => match extension_of(address.path.as_str()) {
            Some(extension) => if extension.as_str().is_empty() {
                owned("img")
            } else {
                extension
            },
            None => owned("img"),
        },
        Err(_) => owned("img"),
    }
}

/// The extension that a cached picture gets.
pub fn avatar_extension_from_url(raw_url: &str) -> (r: String)
    ensures
        r@ == picture_extension(parsed_url(raw_url@)),
{
    extension_of_address(&parse_url(raw_url))
}

/// Whether a character is an ASCII letter or digit.
pub open spec fn is_ascii_alphanumeric(c: char) -> bool {
    'a' <= c <= 'z' || 'A' <= c <= 'Z' || '0' <= c <= '9'
}

/// The ASCII letters and digits that a text starts with.
pub open spec fn alphanumeric_start(text: Seq<char>) -> Seq<char>
    decreases text.len(),
{
    if text.len() > 0 && is_ascii_alphanumeric(text.first()) {
        seq![text.first()] + alphanumeric_start(text.skip(1))
    } else {
        Seq::empty()
    }
}

/// The ASCII letters and digits that a text starts with.
fn leading_alphanumerics(text: &str) -> (r: String)
    ensures
        r@ == alphanumeric_start(text@),
{
    let chars = to_chars(text);
    let mut end: usize = 0;
    assert(text@.skip(0) =~= text@);
    assert(text@.take(0) + alphanumeric_start(text@) =~= alphanumeric_start(text@));
    while end < chars.len() && (('a' <= chars[end] && chars[end] <= 'z') || ('A' <= chars[end]
        && chars[end] <= 'Z') || ('0' <= chars[end] && chars[end] <= '9'))
        invariant
            end <= chars.len(),
            chars@ == text@,
            alphanumeric_start(text@) == text@.take(end as int) + alphanumeric_start(
                text@.skip(end as int),
            ),
        decreases chars.len() - end,
    {
        let ghost rest = text@.skip(end as int);
        assert(rest.skip(1) =~= text@.skip(end + 1));
        assert(text@.take(end as int) + (seq![rest.first()] + alphanumeric_start(rest.skip(1)))
            =~= text@.take(end + 1) + alphanumeric_start(text@.skip(end + 1)));
        end += 1;
    }
    assert(alphanumeric_start(text@.skip(end as int)) =~= Seq::empty());
    let start = slice_text(&chars, 0, end);
    assert(start@ =~= alphanumeric_start(text@));
    start
}

/// The extension that a cached image gets: the one of its address if that is plain, else the one
/// of its media type. `from_url` is the extension of the address.
pub open spec fn image_extension(file: SlackFileModel, from_url: Seq<char>) -> Seq<char> {
    let plain = lowercase(alphanumeric_start(from_url));
    if plain.len() > 0 && plain != "img"@ {
        plain
    } else {
        match file.mimetype {
            Some(mime) => if starts_with(mime, "image/"@) {
                split(mime.skip("image/"@.len() as int), '+')[0]
            } else {
                "img"@
            },
            None => "img"@,
        }
    }
}

/// The extension that a cached image gets.
pub fn image_extension_with(file: &SlackFile, from_url: &str) -> (r: String)
    ensures
        r@ == image_extension(file.deep_view(), from_url@),
{
    let start = leading_alphanumerics(from_url);
    let plain = start.as_str().to_lowercase();
    if !plain.as_str().is_empty() && !same_text(plain.as_str(), "img") {
        return plain;
    }
    match &file.mimetype {
        Some(mime) => match after_prefix(mime.as_str(), "image/") {
            Some(kind) => {
                let parts = split_text(kind.as_str(), '+');
                assert(parts.deep_view()[0] == parts@[0]@);
                parts[0].clone()
            },
            None => owned("img"),
        },
        None => owned("img"),
    }
}

/// The extension that a cached image with an address gets.
pub fn image_extension_from_file(file: &SlackFile, raw_url: &str) -> (r: String)
    ensures
        r@ == image_extension(file.deep_view(), picture_extension(parsed_url(raw_url@))),
{
    image_extension_with(file, avatar_extension_from_url(raw_url).as_str())
}

impl SlackFileModel {
    /// Where a picture of the file is: the larger thumbnail, else the smaller one, else the file
    /// itself.
    pub open spec fn preview_url(self) -> Option<Seq<char>> {
        first_given(
            self.thumb_720,
            first_given(
                self.thumb_360,
                first_given(self.url_private_download, self.url_private),
            ),
        )
    }

    /// Whether the file is an image, by its media type or because it has a thumbnail.
    pub open spec fn is_image(self) -> bool {
        ||| self.mimetype matches Some(mime) && starts_with(mime, "image/"@)
        ||| self.thumb_360 is Some
        ||| self.thumb_720 is Some
    }

    /// How the file is listed when it is not cached.
    pub open spec fn listed(self) -> AttachmentSummaryModel {
        AttachmentSummaryModel {
            kind: if self.is_image() {
                AttachmentKind::Image
            } else {
                AttachmentKind::File
            },
            title: match self.name {
                Some(name) => name,
                None => "Slack attachment"@,
            },
            url: first_given(
                self.permalink,
                first_given(self.url_private, self.url_private_download),
            ),
            mime: self.mimetype,
        }
    }

    /// How the file is listed, given where it is cached if it is.
    pub open spec fn listed_with(self, cached: Option<Seq<char>>) -> AttachmentSummaryModel {
        if self.is_image() && cached is Some {
            AttachmentSummaryModel {
                kind: AttachmentKind::Image,
                title: match self.name {
                    Some(name) => name,
                    None => "Image attachment"@,
                },
                url: cached,
                mime: self.mimetype,
            }
        } else {
            self.listed()
        }
    }
}

/// Where a picture of a file is.
pub fn slack_file_preview_url(file: &SlackFile) -> (r: Option<String>)
    ensures
        r.deep_view() == file.deep_view().preview_url(),
{
    let copy = file.clone();
    or_else(
        copy.thumb_720,
        or_else(copy.thumb_360, or_else(copy.url_private_download, copy.url_private)),
    )
}

/// Whether a file is an image.
pub fn slack_file_is_image(file: &SlackFile) -> (r: bool)
    ensures
        r == file.deep_view().is_image(),
{
    if let Some(mime) = &file.mimetype {
        if begins_with(mime.as_str(), "image/") {
            return true;
        }
    }
    file.thumb_360.is_some() || file.thumb_720.is_some()
}

/// How a file is listed when it is not cached.
pub fn fallback_attachment_summary(file: &SlackFile) -> (r: AttachmentSummary)
    ensures
        r.deep_view() == file.deep_view().listed(),
{
    let copy = file.clone();
    AttachmentSummary {
        kind: if slack_file_is_image(file) {
            AttachmentKind::Image
        } else {
            AttachmentKind::File
        },
        title: match copy.name {
            Some(name) => name,
            None => owned("Slack attachment"),
        },
        url: or_else(copy.permalink, or_else(copy.url_private, copy.url_private_download)),
        mime: copy.mimetype,
    }
}

/// How a file is listed, given where it is cached if it is.
pub fn attachment_summary(file: &SlackFile, cached: &Option<String>) -> (r: AttachmentSummary)
    ensures
        r.deep_view() == file.deep_view().listed_with(cached.deep_view()),
{
    if slack_file_is_image(file) && cached.is_some() {
        let copy = file.clone();
        return AttachmentSummary {
            kind: AttachmentKind::Image,
            title: match copy.name {
                Some(name) => name,
                None => owned("Image attachment"),
            },
            url: cached.clone(),
            mime: copy.mimetype,
        };
    }
    fallback_attachment_summary(file)
}

/// How files are listed, given where each is cached if it is. A file without an entry is not.
pub open spec fn listed_files(files: Seq<SlackFileModel>, cached: Seq<Option<Seq<char>>>) -> Seq<
    AttachmentSummaryModel,
> {
    Seq::new(
        files.len(),
        |i: int|
            files[i].listed_with(
                if i < cached.len() {
                    cached[i]
                } else {
                    None
                },
            ),
    )
}

/// How the files of a message are listed, given where each is cached if it is.
pub fn cached_message_attachments(files: &Vec<SlackFile>, cached: &Vec<Option<String>>) -> (r: Vec<
    AttachmentSummary,
>)
    ensures
        r.deep_view() == listed_files(files.deep_view(), cached.deep_view()),
{
    let mut out: Vec<AttachmentSummary> = Vec::new();
    let mut i: usize = 0;
    while i < files.len()
        invariant
            i <= files.len(),
            out.len() == i,
            forall|k: int|
                0 <= k < i ==> (#[trigger] out.deep_view()[k]) == listed_files(
                    files.deep_view(),
                    cached.deep_view(),
                )[k],
        decreases files.len() - i,
    {
        let ghost before = out.deep_view();
        let summary = if i < cached.len() {
            attachment_summary(&files[i], &cached[i])
        } else {
            fallback_attachment_summary(&files[i])
        };
        assert(files.deep_view()[i as int] == files@[i as int].deep_view());
        assert(i < cached.len() ==> cached.deep_view()[i as int] == cached@[i as int].deep_view());
        out.push(summary);
        assert(out.deep_view() =~= before.push(summary.deep_view()));
        i += 1;
    }
    assert(out.deep_view() =~= listed_files(files.deep_view(), cached.deep_view()));
    out
}

/// The name under which the picture of a file is cached, if it has a picture.
pub fn cached_image_name(file: &SlackFile) -> (r: Option<String>)
    ensures
        r.deep_view() == (match file.deep_view().preview_url() {
            Some(url) => Some(
                file.id@ + "."@ + image_extension(
                    file.deep_view(),
                    picture_extension(parsed_url(url)),
                ),
            ),
            None => None,
        }),
{
    match slack_file_preview_url(file) {
        Some(url) => {
            let mut name = file.id.clone();
            name.append(".");
            name.append(image_extension_from_file(file, url.as_str()).as_str());
            Some(name)
        },
        None => None,
    }
}

/// The name under which the picture of a user is cached, if they have one.
pub fn cached_avatar_name(user: &SlackUser) -> (r: Option<String>)
    ensures
        r.deep_view() == (match user.deep_view().avatar_url() {
            Some(url) => Some(user.id@ + "."@ + picture_extension(parsed_url(url))),
            None => None,
        }),
{
    match slack_user_avatar_url(user) {
        Some(url) => {
            let mut name = user.id.clone();
            name.append(".");
            name.append(avatar_extension_from_url(url.as_str()).as_str());
            Some(name)
        },
        None => None,
    }
}

/// Whether bytes start with others.
pub open spec fn bytes_start(bytes: Seq<u8>, start: Seq<u8>) -> bool {
    bytes.len() >= start.len() && bytes.take(start.len() as int) == start
}

/// Whether bytes are those of a JPEG, PNG, GIF or WebP image, by how they start.
pub open spec fn image_bytes(bytes: Seq<u8>) -> bool {
    ||| bytes_start(bytes, seq![0xff, 0xd8, 0xff])
    ||| bytes_start(bytes, seq![0x89, 0x50, 0x4e, 0x47, 0x0d, 0x0a, 0x1a, 0x0a])
    ||| bytes_start(bytes, seq![0x47, 0x49, 0x46, 0x38, 0x37, 0x61])
    ||| bytes_start(bytes, seq![0x47, 0x49, 0x46, 0x38, 0x39, 0x61])
    ||| bytes_start(bytes, seq![0x52, 0x49, 0x46, 0x46]) && bytes.len() >= 12 && bytes.subrange(
        8,
        12,
    ) == seq![0x57u8, 0x45, 0x42, 0x50]
}

/// Whether other bytes stand in bytes at a position.
fn bytes_stand_at(bytes: &Vec<u8>, part: &Vec<u8>, at: usize) -> (r: bool)
    ensures
        r == (at + part.len() <= bytes.len() && bytes@.subrange(at as int, at + part.len())
            == part@),
{
    if bytes.len() < part.len() || bytes.len() - part.len() < at {
        return false;
    }
    let mut i: usize = 0;
    while i < part.len()
        invariant
            i <= part.len(),
            at + part.len() <= bytes.len(),
            forall|k: int| 0 <= k < i ==> bytes@[at + k] == #[trigger] part@[k],
        decreases part.len() - i,
    {
        if bytes[at + i] != part[i] {
            assert(bytes@.subrange(at as int, at + part.len())[i as int] == bytes@[at + i]);
            return false;
        }
        i += 1;
    }
    assert(bytes@.subrange(at as int, at + part.len()) =~= part@);
    true
}

/// Whether bytes are those of an image that can be shown.
pub fn looks_like_image_bytes(bytes: &Vec<u8>) -> (r: bool)
    ensures
        r == image_bytes(bytes@),
{
    let jpeg: Vec<u8> = vec![0xff, 0xd8, 0xff];
    let png: Vec<u8> = vec![0x89, 0x50, 0x4e, 0x47, 0x0d, 0x0a, 0x1a, 0x0a];
    let gif_87: Vec<u8> = vec![0x47, 0x49, 0x46, 0x38, 0x37, 0x61];
    let gif_89: Vec<u8> = vec![0x47, 0x49, 0x46, 0x38, 0x39, 0x61];
    let riff: Vec<u8> = vec![0x52, 0x49, 0x46, 0x46];
    let webp: Vec<u8> = vec![0x57, 0x45, 0x42, 0x50];
    assert(jpeg@ =~= seq![0xffu8, 0xd8, 0xff]);
    assert(png@ =~= seq![0x89u8, 0x50, 0x4e, 0x47, 0x0d, 0x0a, 0x1a, 0x0a]);
    assert(gif_87@ =~= seq![0x47u8, 0x49, 0x46, 0x38, 0x37, 0x61]);
    assert(gif_89@ =~= seq![0x47u8, 0x49, 0x46, 0x38, 0x39, 0x61]);
    assert(riff@ =~= seq![0x52u8, 0x49, 0x46, 0x46]);
    assert(webp@ =~= seq![0x57u8, 0x45, 0x42, 0x50]);
    assert forall|start: Seq<u8>| bytes@.len() >= start.len() implies #[trigger] bytes@.take(
        start.len() as int,
    ) == bytes@.subrange(0, start.len() as int) by {}
    bytes_stand_at(bytes, &jpeg, 0) || bytes_stand_at(bytes, &png, 0) || bytes_stand_at(
        bytes,
        &gif_87,
        0,
    ) || bytes_stand_at(bytes, &gif_89, 0) || (bytes_stand_at(bytes, &riff, 0) && bytes_stand_at(
        bytes,
        &webp,
        8,
    ))
}

/// What is done with an image that may be cached.
#[derive(Clone, Copy, Debug, PartialEq, Eq, Structural)]
pub enum CachedImage {
    /// It is cached and can be shown.
    Use,
    /// What is cached cannot be shown: it is removed, and the image downloaded.
    Replace,
    /// It is downloaded.
    Download,
}

/// What is done with an image, given what is cached under its name.
pub fn cached_image_step(cached: Option<&Vec<u8>>, exists: bool) -> (r: CachedImage)
    ensures
        r == (if exists && (cached matches Some(bytes) && image_bytes(bytes@)) {
            CachedImage::Use
        } else if exists {
            CachedImage::Replace
        } else {
            CachedImage::Download
        }),
{
    if exists {
        if let Some(bytes) = cached {
            if looks_like_image_bytes(bytes) {
                return CachedImage::Use;
            }
        }
        CachedImage::Replace
    } else {
        CachedImage::Download
    }
}

/// What a reply to a download leads to.
#[derive(Debug, PartialEq, Eq)]
pub enum DownloadStep {
    /// The bytes of the reply are the file.
    Take,
    /// The file is at another address.
    Follow(String),
    /// The file cannot be had.
    Fail,
}

/// What the status of a reply and the place it points to lead to. `next` is what that place is
/// read as within the address that was asked.
pub fn download_step(status: u16, next: Option<Result<WebUrl, String>>) -> (r: DownloadStep)
    ensures
        match r {
            DownloadStep::Take => 200 <= status < 300,
            DownloadStep::Follow(text) => 300 <= status < 400 && (next matches Some(Ok(address))
                && text@ == address.text@),
            DownloadStep::Fail => if 300 <= status < 400 {
                !(next matches Some(Ok(_)))
            } else {
                !(200 <= status < 300)
            },
        },
{
    if 300 <= status && status < 400 {
        match next {
            Some(Ok(address)) => DownloadStep::Follow(address.text),
            _ => DownloadStep::Fail,
        }
    } else if 200 <= status && status < 300 {
        DownloadStep::Take
    } else {
        DownloadStep::Fail
    }
}

/// What a reply to a download from an address leads to: redirections are followed to the place
/// that they name within that address.
pub fn follow_download(url: &str, status: u16, location: Option<&str>) -> (r: DownloadStep)
    ensures
        match r {
            DownloadStep::Take => 200 <= status < 300,
            DownloadStep::Follow(text) => 300 <= status < 400 && (location matches Some(place)
                && (joined_url(url@, place@) matches Ok(address) && text@ == address.text)),
            DownloadStep::Fail => if 300 <= status < 400 {
                location matches Some(place) ==> joined_url(url@, place@) is Err
            } else {
                !(200 <= status < 300)
            },
        },
{
    let next = match location {
        Some(location) => Some(join_url(url, location)),
        None => None,
    };
    download_step(status, next)
}

/// What a reply to a download leads to, given how many requests were made before: the last one
/// that is made is not followed further.
pub fn next_download(url: &str, earlier: u8, status: u16, location: Option<&str>) -> (r:
    DownloadStep)
    ensures
        match r {
            DownloadStep::Take => 200 <= status < 300,
            DownloadStep::Follow(text) => earlier + 1 < DOWNLOAD_ATTEMPTS && 300 <= status < 400
                && (location matches Some(place) && (joined_url(url@, place@) matches Ok(address)
                && text@ == address.text)),
            DownloadStep::Fail => if 300 <= status < 400 {
                earlier + 1 >= DOWNLOAD_ATTEMPTS || (location matches Some(place) ==> joined_url(
                    url@,
                    place@,
                ) is Err)
            } else {
                !(200 <= status < 300)
            },
        },
{
    match follow_download(url, status, location) {
        DownloadStep::Follow(next) => if earlier < DOWNLOAD_ATTEMPTS - 1 {
            DownloadStep::Follow(next)
        } else {
            DownloadStep::Fail
        },
        step => step,
    }
}

} // verus!
