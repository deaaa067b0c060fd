//! Pictures from the web: how they are decoded, and the cache that keeps
//! each of them for as long as somebody holds a handle to it.

use crate::error::ClientError;
use crate::net::retriever::{Method, Request, Response};
use crate::ui::decode::{
    accepted, color_of, decode_image, decoded, format_kind, guess_format, guessed, height_of,
    image_color, image_height, image_rgba, image_width, kind_of, resize_image, resized, rgba_of,
    whole_samples, width_of, ColorKind, FormatKind,
};
use crate::ui::loader::{be_words, Bitmap, Loader};
use crate::ui::mailbox::{Mailbox, UiMsg};
use crate::ui::pool::{is_lowest_free, lowest_free, LogicImgPool, OpaqueImg};
use image::imageops::FilterType;
use image::DynamicImage;
use vstd::prelude::*;

verus! {

/// No picture with a side of more pixels than this is decoded.
pub const MAX_DECODE_SIDE: u32 = 1024;

/// The decoder is asked to use no more bytes than this.
pub const MAX_DECODE_ALLOC: u64 = 8 * 1024 * 1024;

/// Whether a picture of `width` by `height` pixels is too large for
/// `max_scale`, where one is given: one of its sides is longer.
pub open spec fn exceeds(width: u32, height: u32, max_scale: Option<u16>) -> bool {
    max_scale matches Some(max) && (width > max || height > max)
}

/// Whether a picture of `width` by `height` pixels is too large for
/// `max_scale`.
pub fn needs_resize(width: u32, height: u32, max_scale: Option<u16>) -> (needed: bool)
    ensures
        needed == exceeds(width, height, max_scale),
{
    match max_scale {
        Some(max) => width > max as u32 || height > max as u32,
        None => false,
    }
}

/// The picture as it is shown: scaled down, with its proportions kept and
/// with a triangle filter, if it is too large for `max_scale`.
pub open spec fn shrunk(image: DynamicImage, max_scale: Option<u16>) -> DynamicImage {
    if exceeds(image_width(image), image_height(image), max_scale) {
        resized(image, max_scale->0 as u32, max_scale->0 as u32, FilterType::Triangle)
    } else {
        image
    }
}

/// The picture that `bytes` hold: what they decode to, under the limits of
/// this library, as a picture of the format that their first bytes are the
/// mark of. There is none if the format is not known or not taken, or if
/// the decoder refuses the bytes.
pub open spec fn picture_in(bytes: Seq<u8>) -> Option<DynamicImage> {
    match guessed(bytes) {
        Some(format) => if accepted(format_kind(format)) {
            decoded(bytes, format, MAX_DECODE_SIDE, MAX_DECODE_SIDE, MAX_DECODE_ALLOC)
        } else {
            None
        },
        None => None,
    }
}

/// Whether `bytes` are a picture of a format that is known and not taken.
pub open spec fn unaccepted(bytes: Seq<u8>) -> bool {
    guessed(bytes) matches Some(format) && !accepted(format_kind(format))
}

/// Whether pictures of this format are taken.
pub fn accepts(kind: FormatKind) -> (taken: bool)
    ensures
        taken == accepted(kind),
{
    match kind {
        FormatKind::Png => true,
        FormatKind::Jpeg => true,
        FormatKind::Gif => true,
        FormatKind::Other => false,
    }
}

/// Whether each channel of a picture with such samples is a whole number.
pub fn has_whole_samples(kind: ColorKind) -> (whole: bool)
    ensures
        whole == whole_samples(kind),
{
    match kind {
        ColorKind::Rgb32F => false,
        ColorKind::Rgba32F => false,
        ColorKind::Other => false,
        _ => true,
    }
}

/// Decodes the bytes of a picture. Only PNG, JPEG and GIF are taken: bytes
/// of another format fail with `Format`, and bytes that are the mark of no
/// format, or that the decoder refuses, with the error of the `image`
/// crate.
pub fn decode_picture(buffer: &[u8]) -> (result: Result<DynamicImage, ClientError>)
    ensures
        match picture_in(buffer@) {
            Some(image) => result matches Ok(picture) && picture == image,
            None => if unaccepted(buffer@) {
                result matches Err(ClientError::Format)
            } else {
                result matches Err(ClientError::Image(_))
            },
        },
{
    let format = match guess_format(buffer) {
        Ok(format) => format,
        Err(e) => {
            return Err(ClientError::Image(e));
        },
    };
    if !accepts(kind_of(format)) {
        return Err(ClientError::Format);
    }
    match decode_image(buffer, format, MAX_DECODE_SIDE, MAX_DECODE_SIDE, MAX_DECODE_ALLOC) {
        Ok(image) => Ok(image),
        Err(e) => Err(ClientError::Image(e)),
    }
}

/// Whether a picture of `width` by `height` pixels is within `max_scale`,
/// where one is given: no side is longer.
pub open spec fn within(width: u32, height: u32, max_scale: Option<u16>) -> bool {
    max_scale matches Some(max) ==> width <= max && height <= max
}

/// Whether a decoded picture can be shown: if it has to be scaled it has
/// pixels; and as it is shown, its samples are whole numbers, no side is
/// longer than `max_scale` allows or than 65535 pixels, and there are four
/// bytes for each pixel.
pub open spec fn showable(image: DynamicImage, max_scale: Option<u16>) -> bool {
    let shown = shrunk(image, max_scale);
    &&& exceeds(image_width(image), image_height(image), max_scale) ==> image_width(image) > 0
        && image_height(image) > 0
    &&& whole_samples(image_color(shown))
    &&& within(image_width(shown), image_height(shown), max_scale)
    &&& image_width(shown) <= u16::MAX
    &&& image_height(shown) <= u16::MAX
    &&& image_rgba(shown).len() == 4 * image_width(shown) * image_height(shown)
}

/// The bitmap of a decoded picture, scaled down if it is too large for
/// `max_scale`. It fails with `BadImage` if the picture cannot be shown.
pub fn picture_of(image: DynamicImage, max_scale: Option<u16>) -> (result: Result<Bitmap, ClientError>)
    ensures
        result is Ok <==> showable(image, max_scale),
        result matches Ok(bitmap) ==> {
            let shown = shrunk(image, max_scale);
            &&& bitmap.width() == image_width(shown)
            &&& bitmap.height() == image_height(shown)
            &&& bitmap.pixels() == be_words(image_rgba(shown))
            &&& within(bitmap.width() as u32, bitmap.height() as u32, max_scale)
        },
        result matches Err(e) ==> e is BadImage,
{
    let width = width_of(&image);
    let height = height_of(&image);
    let shown = if needs_resize(width, height, max_scale) {
        if width == 0 || height == 0 {
            return Err(ClientError::BadImage);
        }
        let max = match max_scale {
            Some(max) => max as u32,
            None => 0,
        };
        resize_image(&image, max, max, FilterType::Triangle)
    } else {
        image
    };
    if !has_whole_samples(color_of(&shown)) {
        return Err(ClientError::BadImage);
    }
    let shown_width = width_of(&shown);
    let shown_height = height_of(&shown);
    if needs_resize(shown_width, shown_height, max_scale) {
        return Err(ClientError::BadImage);
    }
    let bytes = rgba_of(&shown);
    match Bitmap::from_rgba(shown_width, shown_height, &bytes) {
        Some(bitmap) => Ok(bitmap),
        None => Err(ClientError::BadImage),
    }
}

/// The mailbox has one more message than before: the picture of a bitmap
/// of the given size and pixels is to be made under the number `id`.
pub open spec fn sent_bitmap<S, K, W>(
    before: Seq<UiMsg<S, K, W>>,
    after: Seq<UiMsg<S, K, W>>,
    id: usize,
    width: u16,
    height: u16,
    pixels: Seq<u32>,
) -> bool {
    &&& after.len() == before.len() + 1
    &&& after.drop_last() == before
    &&& after.last() matches UiMsg::LoadImage(number, Loader::Bitmap(bitmap)) && number == id
        && bitmap.width() == width && bitmap.height() == height && bitmap.pixels() == pixels
}

/// Whether the lowest number below `usize::MAX` is free in `used`.
pub open spec fn has_free(used: Set<usize>) -> bool {
    exists|j: usize| j < usize::MAX && !used.contains(j)
}

/// Decodes the bytes of a picture, scales it down if it is too large for
/// `max_scale`, and asks the render thread to make the picture. The result
/// is the size of the picture, of which no side is longer than `max_scale`
/// allows, and the handle for it.
pub fn convert_image<S, K, W>(
    pool: &mut LogicImgPool,
    mailbox: &mut Mailbox<S, K, W>,
    buffer: &[u8],
    max_scale: Option<u16>,
) -> (result: Result<(u16, u16, OpaqueImg), ClientError>)
    ensures
        match picture_in(buffer@) {
            None => if unaccepted(buffer@) {
                result matches Err(ClientError::Format)
            } else {
                result matches Err(ClientError::Image(_))
            },
            Some(image) => if !showable(image, max_scale) {
                result matches Err(ClientError::BadImage)
            } else if !has_free(old(pool).used()) {
                result matches Err(ClientError::NoHandle)
            } else {
                result matches Ok(made) && {
                    let shown = shrunk(image, max_scale);
                    &&& made.0 == image_width(shown)
                    &&& made.1 == image_height(shown)
                    &&& within(made.0 as u32, made.1 as u32, max_scale)
                    &&& is_lowest_free(old(pool).used(), made.2.id())
                    &&& final(pool).used() == old(pool).used().insert(made.2.id())
                    &&& sent_bitmap(
                        old(mailbox)@,
                        final(mailbox)@,
                        made.2.id(),
                        made.0,
                        made.1,
                        be_words(image_rgba(shown)),
                    )
                }
            },
        },
        result is Err ==> final(pool).used() == old(pool).used() && final(mailbox)@ == old(mailbox)@,
{
    let image = match decode_picture(buffer) {
        Ok(image) => image,
        Err(e) => {
            return Err(e);
        },
    };
    let bitmap = match picture_of(image, max_scale) {
        Ok(bitmap) => bitmap,
        Err(e) => {
            return Err(e);
        },
    };
    let width = bitmap.get_width();
    let height = bitmap.get_height();
    match pool.allocate(Loader::Bitmap(bitmap), mailbox) {
        Some(handle) => {
            assert(final(mailbox)@.drop_last() =~= old(mailbox)@);
            Ok((width, height, handle))
        },
        None => Err(ClientError::NoHandle),
    }
}

} // verus!

verus! {

/// A picture from the web: its size, the handle under which the render
/// thread keeps it, and where it came from.
pub struct WebImage {
    pub width: u16,
    pub height: u16,
    pub image: OpaqueImg,
    url: String,
}

impl WebImage {
    /// The URL of the picture.
    pub closed spec fn url(&self) -> Seq<char> {
        self.url@
    }

    /// The URL of the picture.
    pub fn get_url(&self) -> (url: &String)
        ensures
            url@ == self.url(),
    {
        &self.url
    }
}

/// What the cache knows of one picture, and how many handles to it are
/// out.
pub struct CacheEntry {
    pub url: Seq<char>,
    pub width: u16,
    pub height: u16,
    pub image: usize,
    pub handles: nat,
}

/// The index of the entry for `url`, or the number of entries if there is
/// none.
pub open spec fn find(entries: Seq<CacheEntry>, url: Seq<char>) -> int
    decreases entries.len(),
{
    if entries.len() == 0 {
        0
    } else if entries[0].url == url {
        0
    } else {
        1 + find(entries.drop_first(), url)
    }
}

/// Whether there is an entry for `url`.
pub open spec fn cached(entries: Seq<CacheEntry>, url: Seq<char>) -> bool {
    find(entries, url) < entries.len()
}

/// No URL has two entries.
pub open spec fn distinct_urls(entries: Seq<CacheEntry>) -> bool {
    forall|i: int, j: int| 0 <= i < j < entries.len() ==> entries[i].url != entries[j].url
}

/// The URLs that are asked for.
pub open spec fn urls_of(images: Seq<(String, Option<u16>)>) -> Seq<Seq<char>> {
    images.map_values(|wanted: (String, Option<u16>)| wanted.0@)
}

/// The URLs among the first `k` of `urls` that have to be fetched: those
/// that have no entry, each once, in the order in which they first occur.
pub open spec fn misses(entries: Seq<CacheEntry>, urls: Seq<Seq<char>>, k: int) -> Seq<Seq<char>>
    decreases k,
{
    if k <= 0 {
        Seq::empty()
    } else {
        let before = misses(entries, urls, k - 1);
        if cached(entries, urls[k - 1]) || before.contains(urls[k - 1]) {
            before
        } else {
            before.push(urls[k - 1])
        }
    }
}

/// The index at which `url` first occurs in `urls`, or the length of
/// `urls` if it does not occur.
pub open spec fn first_index(urls: Seq<Seq<char>>, url: Seq<char>) -> int
    decreases urls.len(),
{
    if urls.len() == 0 {
        0
    } else if urls[0] == url {
        0
    } else {
        1 + first_index(urls.drop_first(), url)
    }
}

/// The first index of a URL is the index of its first occurrence.
pub proof fn lemma_first_index(urls: Seq<Seq<char>>, url: Seq<char>)
    ensures
        0 <= first_index(urls, url) <= urls.len(),
        first_index(urls, url) < urls.len() ==> urls[first_index(urls, url)] == url,
        forall|i: int| 0 <= i < first_index(urls, url) ==> urls[i] != url,
    decreases urls.len(),
{
    if urls.len() > 0 && urls[0] != url {
        let rest = urls.drop_first();
        lemma_first_index(rest, url);
        assert forall|i: int| 0 <= i < first_index(urls, url) implies urls[i] != url by {
            if i > 0 {
                assert(urls[i] == rest[i - 1]);
            }
        }
    }
}

/// How often `url` occurs among the first `k` of `urls`.
pub open spec fn occurrences(urls: Seq<Seq<char>>, url: Seq<char>, k: int) -> nat
    decreases k,
{
    if k <= 0 {
        0
    } else {
        occurrences(urls, url, k - 1) + if urls[k - 1] == url {
            1nat
        } else {
            0nat
        }
    }
}

/// The entry for a URL is the first one with that URL.
pub proof fn lemma_find(entries: Seq<CacheEntry>, url: Seq<char>)
    ensures
        0 <= find(entries, url) <= entries.len(),
        cached(entries, url) ==> entries[find(entries, url)].url == url,
        forall|i: int| 0 <= i < find(entries, url) ==> entries[i].url != url,
    decreases entries.len(),
{
    if entries.len() > 0 && entries[0].url != url {
        let rest = entries.drop_first();
        lemma_find(rest, url);
        assert forall|i: int| 0 <= i < find(entries, url) implies entries[i].url != url by {
            if i > 0 {
                assert(entries[i] == rest[i - 1]);
            }
        }
    }
}

/// A handle to a cached picture. While it is out the picture stays in the
/// cache; it goes back with `release`.
pub struct CachedImage {
    url: String,
    image: usize,
    width: u16,
    height: u16,
}

impl CachedImage {
    /// The URL of the picture.
    pub closed spec fn url(&self) -> Seq<char> {
        self.url@
    }

    /// The number under which the render thread keeps the picture.
    pub closed spec fn image(&self) -> usize {
        self.image
    }

    /// The width of the picture, in pixels.
    pub closed spec fn width(&self) -> u16 {
        self.width
    }

    /// The height of the picture, in pixels.
    pub closed spec fn height(&self) -> u16 {
        self.height
    }

    /// The handle is one to the picture of `entry`.
    pub open spec fn shows(&self, entry: CacheEntry) -> bool {
        &&& self.url() == entry.url
        &&& self.image() == entry.image
        &&& self.width() == entry.width
        &&& self.height() == entry.height
    }

    /// The URL of the picture.
    pub fn get_url(&self) -> (url: &String)
        ensures
            url@ == self.url(),
    {
        &self.url
    }

    /// The number under which the render thread keeps the picture.
    pub fn get_image(&self) -> (image: usize)
        ensures
            image == self.image(),
    {
        self.image
    }

    /// The width of the picture, in pixels.
    pub fn get_width(&self) -> (width: u16)
        ensures
            width == self.width(),
    {
        self.width
    }

    /// The height of the picture, in pixels.
    pub fn get_height(&self) -> (height: u16)
        ensures
            height == self.height(),
    {
        self.height
    }
}

/// A picture in the cache, with the number of handles to it that are out.
struct Slot {
    image: WebImage,
    handles: usize,
}

/// Keeps the pictures from the web that are in use.
pub struct WebImageCache {
    entries: Vec<Slot>,
}

impl WebImageCache {
    /// The entries, in the order in which they were put in.
    pub closed spec fn view(&self) -> Seq<CacheEntry> {
        self.entries@.map_values(
            |slot: Slot|
                CacheEntry {
                    url: slot.image.url@,
                    width: slot.image.width,
                    height: slot.image.height,
                    image: slot.image.image.id(),
                    handles: slot.handles as nat,
                },
        )
    }

    /// No URL has two entries.
    pub open spec fn wf(&self) -> bool {
        distinct_urls(self@)
    }

    /// A cache without entries.
    pub fn new() -> (cache: Self)
        ensures
            cache.wf(),
            cache@ == Seq::<CacheEntry>::empty(),
    {
        let cache = WebImageCache { entries: Vec::new() };
        assert(cache@ =~= Seq::<CacheEntry>::empty());
        cache
    }

    /// The index of the entry for `url`.
    fn position(&self, url: &String) -> (i: usize)
        ensures
            i == find(self@, url@),
            i <= self@.len(),
            self@.len() == self.entries@.len(),
    {
        let mut i: usize = 0;
        proof {
            lemma_find(self@, url@);
        }
        while i < self.entries.len() && !(self.entries[i].image.url == *url)
            invariant
                i <= self.entries@.len(),
                self@.len() == self.entries@.len(),
                forall|k: int| 0 <= k < i ==> self@[k].url != url@,
            decreases self.entries@.len() - i,
        {
            assert(self@[i as int].url == self.entries@[i as int].image.url@);
            i = i + 1;
        }
        proof {
            if i < self.entries@.len() {
                assert(self@[i as int].url == self.entries@[i as int].image.url@);
            }
        }
        i
    }

    /// Whether the picture of `url` is in the cache.
    pub fn contains(&self, url: &String) -> (found: bool)
        ensures
            found == cached(self@, url@),
    {
        self.position(url) < self.entries.len()
    }

    /// The indices of the pictures among `images` that have to be
    /// fetched.
    fn plan(&self, images: &Vec<(String, Option<u16>)>) -> (plan: Vec<usize>)
        ensures
            plan@.len() == misses(self@, urls_of(images@), images@.len() as int).len(),
            forall|j: int|
                0 <= j < plan@.len() ==> plan@[j] < images@.len() && urls_of(
                    images@,
                )[#[trigger] plan@[j] as int] == misses(
                    self@,
                    urls_of(images@),
                    images@.len() as int,
                )[j],
            forall|j: int|
                0 <= j < plan@.len() ==> #[trigger] plan@[j] == first_index(
                    urls_of(images@),
                    misses(self@, urls_of(images@), images@.len() as int)[j],
                ),
    {
        let mut plan: Vec<usize> = Vec::new();
        let ghost urls = urls_of(images@);
        let mut i: usize = 0;
        while i < images.len()
            invariant
                i <= images@.len(),
                urls == urls_of(images@),
                plan@.len() == misses(self@, urls, i as int).len(),
                forall|j: int|
                    0 <= j < plan@.len() ==> plan@[j] < i && urls[#[trigger] plan@[j] as int]
                        == misses(self@, urls, i as int)[j],
                forall|j: int|
                    0 <= j < plan@.len() ==> #[trigger] plan@[j] == first_index(
                        urls,
                        misses(self@, urls, i as int)[j],
                    ),
            decreases images@.len() - i,
        {
            let url = &images[i].0;
            let ghost before = misses(self@, urls, i as int);
            assert(urls[i as int] == url@);
            let mut seen = false;
            if self.contains(url) {
                seen = true;
            } else {
                let mut j: usize = 0;
                while j < plan.len()
                    invariant
                        j <= plan@.len(),
                        i < images@.len(),
                        urls == urls_of(images@),
                        url@ == urls[i as int],
                        plan@.len() == before.len(),
                        forall|k: int|
                            0 <= k < plan@.len() ==> plan@[k] < i && urls[#[trigger] plan@[k] as int]
                                == before[k],
                        !seen ==> forall|k: int| 0 <= k < j ==> before[k] != url@,
                        seen ==> before.contains(url@),
                    decreases plan@.len() - j,
                {
                    assert(urls[plan@[j as int] as int] == images@[plan@[j as int] as int].0@);
                    if images[plan[j]].0 == *url {
                        seen = true;
                        assert(before[j as int] == url@);
                    }
                    j = j + 1;
                }
            }
            if !seen {
                proof {
                    lemma_misses(self@, urls, i as int);
                    lemma_first_index(urls, url@);
                    assert forall|t: int| 0 <= t < i implies urls[t] != url@ by {
                        assert(cached(self@, urls[t]) || before.contains(urls[t]));
                    }
                }
                plan.push(i);
            }
            i = i + 1;
        }
        plan
    }

    /// The requests for the pictures among `images` that have to be
    /// fetched: one for each URL that is not in the cache, in the order in
    /// which the URLs first occur.
    pub fn requests(&self, images: &Vec<(String, Option<u16>)>) -> (requests: Vec<Request>)
        ensures
            requests@.len() == misses(self@, urls_of(images@), images@.len() as int).len(),
            forall|j: int|
                0 <= j < requests@.len() ==> (#[trigger] requests@[j]).method is Get
                    && requests@[j].url@ == misses(
                    self@,
                    urls_of(images@),
                    images@.len() as int,
                )[j],
    {
        let plan = self.plan(images);
        let mut requests: Vec<Request> = Vec::new();
        let mut j: usize = 0;
        while j < plan.len()
            invariant
                j <= plan@.len(),
                requests@.len() == j,
                plan@.len() == misses(self@, urls_of(images@), images@.len() as int).len(),
                forall|k: int|
                    0 <= k < plan@.len() ==> plan@[k] < images@.len() && urls_of(
                        images@,
                    )[#[trigger] plan@[k] as int] == misses(
                        self@,
                        urls_of(images@),
                        images@.len() as int,
                    )[k],
                forall|k: int|
                    0 <= k < j ==> (#[trigger] requests@[k]).method is Get && requests@[k].url@
                        == misses(self@, urls_of(images@), images@.len() as int)[k],
            decreases plan@.len() - j,
        {
            let url = images[plan[j]].0.clone();
            assert(urls_of(images@)[plan@[j as int] as int] == images@[plan@[j as int] as int].0@);
            requests.push(Request { method: Method::Get, url });
            j = j + 1;
        }
        requests
    }
}

} // verus!

verus! {

/// Two lists of entries hold the same pictures in the same places; only
/// the numbers of handles may differ.
pub open spec fn same_pictures(a: Seq<CacheEntry>, b: Seq<CacheEntry>) -> bool {
    &&& a.len() == b.len()
    &&& forall|i: int|
        0 <= i < a.len() ==> (#[trigger] a[i]).url == b[i].url && a[i].width == b[i].width
            && a[i].height == b[i].height && a[i].image == b[i].image
}

proof fn lemma_find_same(a: Seq<CacheEntry>, b: Seq<CacheEntry>, url: Seq<char>)
    requires
        a.len() == b.len(),
        forall|i: int| 0 <= i < a.len() ==> (#[trigger] a[i]).url == b[i].url,
    ensures
        find(a, url) == find(b, url),
    decreases a.len(),
{
    if a.len() > 0 {
        assert(a[0].url == b[0].url);
        if a[0].url != url {
            let ra = a.drop_first();
            let rb = b.drop_first();
            assert forall|i: int| 0 <= i < ra.len() implies (#[trigger] ra[i]).url == rb[i].url by {
                assert(ra[i] == a[i + 1]);
                assert(rb[i] == b[i + 1]);
            }
            lemma_find_same(ra, rb, url);
        }
    }
}

/// The URLs that have to be fetched have no entry and are all different,
/// and every URL that is asked for has an entry or is fetched.
pub proof fn lemma_misses(entries: Seq<CacheEntry>, urls: Seq<Seq<char>>, k: int)
    requires
        0 <= k <= urls.len(),
    ensures
        misses(entries, urls, k).no_duplicates(),
        forall|j: int|
            0 <= j < misses(entries, urls, k).len() ==> !cached(
                entries,
                #[trigger] misses(entries, urls, k)[j],
            ),
        forall|i: int|
            0 <= i < k ==> cached(entries, #[trigger] urls[i]) || misses(entries, urls, k).contains(
                urls[i],
            ),
        misses(entries, urls, k).len() <= k,
    decreases k,
{
    if k > 0 {
        lemma_misses(entries, urls, k - 1);
        let before = misses(entries, urls, k - 1);
        let after = misses(entries, urls, k);
        assert forall|i: int| 0 <= i < k implies cached(entries, #[trigger] urls[i])
            || after.contains(urls[i]) by {
            if i < k - 1 {
                if before.contains(urls[i]) {
                    let j = choose|j: int| 0 <= j < before.len() && before[j] == urls[i];
                    assert(after[j] == urls[i]);
                }
            } else {
                if !cached(entries, urls[i]) {
                    if before.contains(urls[i]) {
                        let j = choose|j: int| 0 <= j < before.len() && before[j] == urls[i];
                        assert(after[j] == urls[i]);
                    } else {
                        assert(after[before.len() as int] == urls[i]);
                    }
                }
            }
        }
    }
}

proof fn lemma_occurrences(urls: Seq<Seq<char>>, url: Seq<char>, k: int)
    requires
        0 <= k,
    ensures
        occurrences(urls, url, k) <= k,
    decreases k,
{
    if k > 0 {
        lemma_occurrences(urls, url, k - 1);
    }
}

impl WebImageCache {
    /// Puts a picture in the cache, with no handle out.
    fn insert(&mut self, url: String, width: u16, height: u16, image: OpaqueImg)
        requires
            old(self).wf(),
            !cached(old(self)@, url@),
        ensures
            final(self).wf(),
            final(self)@ == old(self)@.push(
                CacheEntry { url: url@, width, height, image: image.id(), handles: 0 },
            ),
    {
        proof {
            lemma_find(self@, url@);
        }
        self.entries.push(Slot { image: WebImage { width, height, image, url }, handles: 0 });
        assert(self@ =~= old(self)@.push(
            CacheEntry { url: url@, width, height, image: image.id(), handles: 0 },
        ));
    }

    /// Hands out a handle to the picture at index `i`.
    fn acquire(&mut self, i: usize) -> (handle: CachedImage)
        requires
            i < old(self)@.len(),
            old(self)@[i as int].handles < usize::MAX,
        ensures
            final(self)@ == old(self)@.update(
                i as int,
                CacheEntry { handles: old(self)@[i as int].handles + 1, ..old(self)@[i as int] },
            ),
            handle.shows(old(self)@[i as int]),
    {
        assert(self@.len() == self.entries@.len());
        assert(self@[i as int].handles == self.entries@[i as int].handles);
        let handle = CachedImage {
            url: self.entries[i].image.url.clone(),
            image: self.entries[i].image.image.get_id(),
            width: self.entries[i].image.width,
            height: self.entries[i].image.height,
        };
        let slot = &mut self.entries[i];
        slot.handles = slot.handles + 1;
        assert(self@ =~= old(self)@.update(
            i as int,
            CacheEntry { handles: old(self)@[i as int].handles + 1, ..old(self)@[i as int] },
        ));
        handle
    }
}

} // verus!

verus! {

/// Whether the picture of `url` leaves the cache when a handle to it goes
/// back: it is in the cache, and no other handle to it is out.
pub open spec fn evicts(entries: Seq<CacheEntry>, url: Seq<char>) -> bool {
    cached(entries, url) && entries[find(entries, url)].handles <= 1
}

/// The entries after a handle to the picture of `url` has gone back.
pub open spec fn released(entries: Seq<CacheEntry>, url: Seq<char>) -> Seq<CacheEntry> {
    let i = find(entries, url);
    if evicts(entries, url) {
        entries.remove(i)
    } else if cached(entries, url) {
        entries.update(i, CacheEntry { handles: (entries[i].handles - 1) as nat, ..entries[i] })
    } else {
        entries
    }
}

/// Once the last handle to a picture has gone back, the picture is no
/// longer in the cache, and whoever asks for it again has it fetched
/// again.
pub proof fn lemma_last_release_evicts(
    entries: Seq<CacheEntry>,
    url: Seq<char>,
    urls: Seq<Seq<char>>,
)
    requires
        distinct_urls(entries),
        evicts(entries, url),
    ensures
        !cached(released(entries, url), url),
        distinct_urls(released(entries, url)),
        urls.contains(url) ==> misses(released(entries, url), urls, urls.len() as int).contains(url),
{
    let i = find(entries, url);
    let after = released(entries, url);
    lemma_find(entries, url);
    lemma_find(after, url);
    if cached(after, url) {
        let at = find(after, url);
        let from = if at < i {
            at
        } else {
            at + 1
        };
        assert(after[at] == entries[from]);
    }
    assert forall|a: int, b: int| 0 <= a < b < after.len() implies after[a].url
        != after[b].url by {
        let fa = if a < i {
            a
        } else {
            a + 1
        };
        let fb = if b < i {
            b
        } else {
            b + 1
        };
        assert(after[a] == entries[fa] && after[b] == entries[fb]);
    }
    if urls.contains(url) {
        let k = choose|k: int| 0 <= k < urls.len() && urls[k] == url;
        lemma_misses(after, urls, urls.len() as int);
        assert(cached(after, urls[k]) || misses(after, urls, urls.len() as int).contains(urls[k]));
    }
}

/// In one call each URL is fetched at most once, however often it is
/// asked for: once if its picture is not in the cache, and not at all if
/// it is.
pub proof fn lemma_fetched_once(entries: Seq<CacheEntry>, urls: Seq<Seq<char>>, i: int)
    requires
        0 <= i < urls.len(),
    ensures
        misses(entries, urls, urls.len() as int).no_duplicates(),
        misses(entries, urls, urls.len() as int).contains(urls[i]) <==> !cached(entries, urls[i]),
{
    lemma_misses(entries, urls, urls.len() as int);
    let wanted = misses(entries, urls, urls.len() as int);
    if wanted.contains(urls[i]) {
        let j = choose|j: int| 0 <= j < wanted.len() && wanted[j] == urls[i];
        assert(!cached(entries, wanted[j]));
    }
}

/// Two handles that were handed out for the same URL show the same
/// picture.
pub proof fn lemma_same_url_same_picture(
    entries: Seq<CacheEntry>,
    url: Seq<char>,
    first: CachedImage,
    second: CachedImage,
)
    requires
        first.shows(entries[find(entries, url)]),
        second.shows(entries[find(entries, url)]),
    ensures
        first.image() == second.image(),
        first.width() == second.width(),
        first.height() == second.height(),
        first.url() == second.url(),
{
}

/// The size that is asked for where `url` first occurs among the wishes.
pub open spec fn wished_scale(images: Seq<(String, Option<u16>)>, url: Seq<char>) -> Option<u16> {
    images[first_index(urls_of(images), url)].1
}

/// The picture that a response gives, as it is shown at `max_scale`:
/// `None` if the response is an error, cannot be decoded, or cannot be
/// shown.
pub open spec fn shown_picture(response: Response, max_scale: Option<u16>) -> Option<DynamicImage> {
    match response {
        Ok(bytes) => match picture_in(bytes@) {
            Some(image) => if showable(image, max_scale) {
                Some(shrunk(image, max_scale))
            } else {
                None
            },
            None => None,
        },
        Err(_) => None,
    }
}

/// How far the pictures of a call have been put in the cache: how many,
/// which numbers are in use after them, and whether the next one failed.
pub struct Progress {
    pub stored: int,
    pub used: Set<usize>,
    pub failed: bool,
}

/// How far the first `k` responses get: each in its turn is decoded and
/// given the lowest free number, until one fails.
pub open spec fn progress(
    responses: Seq<Response>,
    scales: Seq<Option<u16>>,
    used: Set<usize>,
    k: int,
) -> Progress
    decreases k,
{
    if k <= 0 {
        Progress { stored: 0, used, failed: false }
    } else {
        let before = progress(responses, scales, used, k - 1);
        if before.failed {
            before
        } else if shown_picture(responses[k - 1], scales[k - 1]) is Some && has_free(before.used) {
            Progress { stored: k, used: before.used.insert(lowest_free(before.used)), failed: false }
        } else {
            Progress { failed: true, ..before }
        }
    }
}

/// The sizes that are asked for the pictures that have to be fetched.
pub open spec fn miss_scales(entries: Seq<CacheEntry>, images: Seq<(String, Option<u16>)>) -> Seq<
    Option<u16>,
> {
    let wanted = misses(entries, urls_of(images), images.len() as int);
    Seq::new(wanted.len(), |j: int| wished_scale(images, wanted[j]))
}

/// Once a picture has failed, the responses behind it change nothing.
proof fn lemma_progress_stops(
    responses: Seq<Response>,
    scales: Seq<Option<u16>>,
    used: Set<usize>,
    k: int,
    m: int,
)
    requires
        0 <= k <= m,
        progress(responses, scales, used, k).failed,
    ensures
        progress(responses, scales, used, m) == progress(responses, scales, used, k),
    decreases m - k,
{
    if k < m {
        lemma_progress_stops(responses, scales, used, k, m - 1);
    }
}

/// While no picture has failed, all of them are stored.
proof fn lemma_progress_counts(
    responses: Seq<Response>,
    scales: Seq<Option<u16>>,
    used: Set<usize>,
    k: int,
)
    requires
        0 <= k,
    ensures
        0 <= progress(responses, scales, used, k).stored <= k,
        !progress(responses, scales, used, k).failed ==> progress(responses, scales, used, k).stored
            == k,
    decreases k,
{
    if k > 0 {
        lemma_progress_counts(responses, scales, used, k - 1);
    }
}

/// There is one lowest free number.
proof fn lemma_lowest_free(used: Set<usize>, id: usize)
    requires
        is_lowest_free(used, id),
    ensures
        lowest_free(used) == id,
{
    let other = lowest_free(used);
    assert(is_lowest_free(used, other));
    if other < id {
        assert(used.contains(other));
    } else if id < other {
        assert(used.contains(id));
    }
}

/// The message with which the picture of entry `j` was sent to the render
/// thread.
pub open spec fn loads<S, K, W>(msg: UiMsg<S, K, W>, entry: CacheEntry, shown: DynamicImage) -> bool {
    msg matches UiMsg::LoadImage(number, Loader::Bitmap(bitmap)) && number == entry.image
        && bitmap.width() == entry.width && bitmap.height() == entry.height && bitmap.pixels()
        == be_words(image_rgba(shown))
}

/// The entries from index `from` on, as they were put in: with no handle
/// out.
pub open spec fn new_entries(entries: Seq<CacheEntry>, from: int) -> Seq<CacheEntry> {
    Seq::new(
        (entries.len() - from) as nat,
        |j: int| CacheEntry { handles: 0, ..entries[from + j] },
    )
}

/// How far the pictures of a call get that have to be fetched.
pub open spec fn fetched(
    entries: Seq<CacheEntry>,
    images: Seq<(String, Option<u16>)>,
    responses: Seq<Response>,
    used: Set<usize>,
) -> Progress {
    progress(
        responses,
        miss_scales(entries, images),
        used,
        misses(entries, urls_of(images), images.len() as int).len() as int,
    )
}

/// `entry` is the entry of the picture of `url` as `response` gives it at
/// `max_scale`, with the lowest number that is free in `used`, and with no
/// handle out.
pub open spec fn stored_entry(
    entry: CacheEntry,
    url: Seq<char>,
    response: Response,
    max_scale: Option<u16>,
    used: Set<usize>,
) -> bool {
    &&& shown_picture(response, max_scale) matches Some(shown) && entry.width == image_width(shown)
        && entry.height == image_height(shown)
    &&& entry.url == url
    &&& entry.image == lowest_free(used)
    &&& entry.handles == 0
}

/// What the pictures that were fetched leave behind: the entries of
/// before, then one entry for each picture that was stored, in the order
/// of the requests; the numbers of these entries in use; and one message
/// to the render thread for each of them.
pub open spec fn stored_as<S, K, W>(
    before: Seq<CacheEntry>,
    after: Seq<CacheEntry>,
    images: Seq<(String, Option<u16>)>,
    responses: Seq<Response>,
    used: Set<usize>,
    used_after: Set<usize>,
    letters: Seq<UiMsg<S, K, W>>,
    letters_after: Seq<UiMsg<S, K, W>>,
) -> bool {
    let done = fetched(before, images, responses, used);
    let wanted = misses(before, urls_of(images), images.len() as int);
    let scales = miss_scales(before, images);
    &&& after.len() == before.len() + done.stored
    &&& after.take(before.len() as int) == before
    &&& used_after == done.used
    &&& letters_after.len() == letters.len() + done.stored
    &&& letters_after.take(letters.len() as int) == letters
    &&& forall|j: int|
        0 <= j < done.stored ==> stored_entry(
            #[trigger] after[before.len() + j],
            wanted[j],
            responses[j],
            scales[j],
            progress(responses, scales, used, j).used,
        ) && loads(
            letters_after[letters.len() + j],
            after[before.len() + j],
            shown_picture(responses[j], scales[j])->0,
        )
}

/// The call succeeds if every picture is stored. Else it fails with what
/// stopped the first picture that is not: the error that came in place of
/// a response, `Format` for a format that is not taken, the error of the
/// decoder, `BadImage` for a picture that cannot be shown, or `NoHandle`.
pub open spec fn failed_with(
    entries: Seq<CacheEntry>,
    images: Seq<(String, Option<u16>)>,
    responses: Seq<Response>,
    used: Set<usize>,
    result: Result<(), ClientError>,
) -> bool {
    let done = fetched(entries, images, responses, used);
    let scales = miss_scales(entries, images);
    match result {
        Ok(()) => !done.failed,
        Err(e) => done.failed && 0 <= done.stored < responses.len() && match responses[done.stored] {
            Err(cause) => e == cause,
            Ok(bytes) => match picture_in(bytes@) {
                None => if unaccepted(bytes@) {
                    e is Format
                } else {
                    e is Image
                },
                Some(image) => if !showable(image, scales[done.stored]) {
                    e is BadImage
                } else {
                    e is NoHandle
                },
            },
        },
    }
}

proof fn lemma_cached_at(entries: Seq<CacheEntry>, i: int)
    requires
        0 <= i < entries.len(),
    ensures
        cached(entries, entries[i].url),
{
    lemma_find(entries, entries[i].url);
}

impl WebImageCache {
    /// Decodes the responses for the pictures that have to be fetched and
    /// puts each picture in the cache, with no handle out, until one
    /// fails.
    fn store<S, K, W>(
        &mut self,
        pool: &mut LogicImgPool,
        mailbox: &mut Mailbox<S, K, W>,
        images: &Vec<(String, Option<u16>)>,
        responses: Vec<Response>,
    ) -> (result: Result<(), ClientError>)
        requires
            old(self).wf(),
            responses@.len() == misses(old(self)@, urls_of(images@), images@.len() as int).len(),
        ensures
            final(self).wf(),
            stored_as(
                old(self)@,
                final(self)@,
                images@,
                responses@,
                old(pool).used(),
                final(pool).used(),
                old(mailbox)@,
                final(mailbox)@,
            ),
            failed_with(old(self)@, images@, responses@, old(pool).used(), result),
    {
        let plan = self.plan(images);
        let ghost kept = self@;
        let ghost urls = urls_of(images@);
        let ghost n = images@.len() as int;
        let ghost wanted = misses(kept, urls, n);
        let ghost scales = miss_scales(kept, images@);
        let ghost given = responses@;
        let ghost used = pool.used();
        let ghost letters = mailbox@;
        proof {
            lemma_misses(kept, urls, n);
            assert(self@.take(kept.len() as int) =~= kept);
            assert(mailbox@.take(letters.len() as int) =~= letters);
        }
        let mut rest = responses;
        let mut k: usize = 0;
        while k < plan.len()
            invariant
                k <= plan@.len(),
                kept == old(self)@,
                urls == urls_of(images@),
                n == images@.len(),
                wanted == misses(kept, urls, n),
                scales == miss_scales(kept, images@),
                used == old(pool).used(),
                letters == old(mailbox)@,
                plan@.len() == wanted.len(),
                given.len() == wanted.len(),
                forall|j: int|
                    0 <= j < plan@.len() ==> plan@[j] < images@.len() && urls[#[trigger] plan@[j] as int]
                        == wanted[j],
                forall|j: int|
                    0 <= j < plan@.len() ==> #[trigger] plan@[j] == first_index(urls, wanted[j]),
                wanted.no_duplicates(),
                forall|j: int| 0 <= j < wanted.len() ==> !cached(kept, #[trigger] wanted[j]),
                rest@ == given.skip(k as int),
                given == responses@,
                self.wf(),
                self@.len() == kept.len() + k,
                self@.take(kept.len() as int) == kept,
                progress(given, scales, used, k as int) == (Progress {
                    stored: k as int,
                    used: pool.used(),
                    failed: false,
                }),
                mailbox@.len() == letters.len() + k,
                mailbox@.take(letters.len() as int) == letters,
                forall|j: int|
                    0 <= j < k ==> stored_entry(
                        #[trigger] self@[kept.len() + j],
                        wanted[j],
                        given[j],
                        scales[j],
                        progress(given, scales, used, j).used,
                    ) && loads(
                        mailbox@[letters.len() + j],
                        self@[kept.len() + j],
                        shown_picture(given[j], scales[j])->0,
                    ),
            decreases plan@.len() - k,
        {
            let ghost at = progress(given, scales, used, k as int);
            let ghost entries = self@;
            let ghost sent = mailbox@;
            let response = rest.remove(0);
            assert(response == given[k as int]);
            assert(rest@ =~= given.skip(k + 1));
            let wanted_here = &images[plan[k]];
            assert(urls[plan@[k as int] as int] == wanted_here.0@);
            assert(scales[k as int] == wanted_here.1);
            let bytes = match response {
                Ok(bytes) => bytes,
                Err(e) => {
                    proof {
                        assert(progress(given, scales, used, k + 1) == (Progress {
                            failed: true,
                            ..at
                        }));
                        lemma_progress_stops(given, scales, used, k + 1, wanted.len() as int);
                        assert(fetched(kept, images@, given, used) == (Progress {
                            failed: true,
                            ..at
                        }));
                    }
                    return Err(e);
                },
            };
            match convert_image(pool, mailbox, bytes.as_slice(), wanted_here.1) {
                Err(e) => {
                    proof {
                        assert(progress(given, scales, used, k + 1) == (Progress {
                            failed: true,
                            ..at
                        }));
                        lemma_progress_stops(given, scales, used, k + 1, wanted.len() as int);
                        assert(fetched(kept, images@, given, used) == (Progress {
                            failed: true,
                            ..at
                        }));
                    }
                    return Err(e);
                },
                Ok((width, height, image)) => {
                    let url = wanted_here.0.clone();
                    proof {
                        lemma_lowest_free(at.used, image.id());
                        lemma_find(entries, url@);
                        lemma_find(kept, url@);
                        if cached(entries, url@) {
                            let found = find(entries, url@);
                            if found < kept.len() {
                                assert(entries.take(kept.len() as int)[found] == entries[found]);
                            } else {
                                assert(stored_entry(
                                    entries[kept.len() + (found - kept.len())],
                                    wanted[found - kept.len()],
                                    given[found - kept.len()],
                                    scales[found - kept.len()],
                                    progress(given, scales, used, found - kept.len()).used,
                                ));
                            }
                        }
                    }
                    self.insert(url, width, height, image);
                    proof {
                        assert(self@.take(kept.len() as int) =~= entries.take(kept.len() as int));
                        assert(mailbox@.take(letters.len() as int) =~= sent.take(
                            letters.len() as int,
                        )) by {
                            assert(mailbox@.drop_last() == sent);
                        }
                        assert forall|j: int| 0 <= j < k + 1 implies stored_entry(
                            #[trigger] self@[kept.len() + j],
                            wanted[j],
                            given[j],
                            scales[j],
                            progress(given, scales, used, j).used,
                        ) && loads(
                            mailbox@[letters.len() + j],
                            self@[kept.len() + j],
                            shown_picture(given[j], scales[j])->0,
                        ) by {
                            if j < k {
                                assert(self@[kept.len() + j] == entries[kept.len() + j]);
                                assert(mailbox@[letters.len() + j] == sent[letters.len() + j]) by {
                                    assert(mailbox@.drop_last() == sent);
                                }
                                assert(stored_entry(
                                    entries[kept.len() + j],
                                    wanted[j],
                                    given[j],
                                    scales[j],
                                    progress(given, scales, used, j).used,
                                ));
                            } else {
                                assert(mailbox@[letters.len() + j] == mailbox@.last());
                            }
                        }
                    }
                },
            }
            k = k + 1;
        }
        Ok(())
    }

    /// Hands out one handle for each of `images`, in their order.
    /// `responses` are the responses to `requests(images)`, in the same
    /// order: each is decoded, scaled down to the size that is asked for
    /// where the URL first occurs, and put in the cache. The first response
    /// that is an error, or cannot be decoded, fails the whole call: the
    /// pictures put in before stay in the cache, with no handle out.
    pub fn get<S, K, W>(
        &mut self,
        pool: &mut LogicImgPool,
        mailbox: &mut Mailbox<S, K, W>,
        images: &Vec<(String, Option<u16>)>,
        responses: Vec<Response>,
    ) -> (result: Result<Vec<CachedImage>, ClientError>)
        requires
            old(self).wf(),
            responses@.len() == misses(old(self)@, urls_of(images@), images@.len() as int).len(),
            forall|j: int|
                0 <= j < old(self)@.len() ==> (#[trigger] old(self)@[j]).handles + images@.len()
                    <= usize::MAX,
        ensures
            final(self).wf(),
            final(pool).used() == fetched(old(self)@, images@, responses@, old(pool).used()).used,
            match result {
                Ok(handles) => {
                    let stored = old(self)@ + new_entries(final(self)@, old(self)@.len() as int);
                    &&& stored_as(
                        old(self)@,
                        stored,
                        images@,
                        responses@,
                        old(pool).used(),
                        final(pool).used(),
                        old(mailbox)@,
                        final(mailbox)@,
                    )
                    &&& same_pictures(final(self)@, stored)
                    &&& forall|j: int|
                        0 <= j < final(self)@.len() ==> (#[trigger] final(self)@[j]).handles
                            == stored[j].handles + occurrences(
                            urls_of(images@),
                            final(self)@[j].url,
                            images@.len() as int,
                        )
                    &&& handles@.len() == images@.len()
                    &&& forall|i: int|
                        0 <= i < images@.len() ==> cached(
                            final(self)@,
                            #[trigger] urls_of(images@)[i],
                        )
                    &&& forall|i: int|
                        0 <= i < images@.len() ==> (#[trigger] handles@[i]).shows(
                            final(self)@[find(final(self)@, urls_of(images@)[i])],
                        )
                },
                Err(_) => {
                    stored_as(
                        old(self)@,
                        final(self)@,
                        images@,
                        responses@,
                        old(pool).used(),
                        final(pool).used(),
                        old(mailbox)@,
                        final(mailbox)@,
                    )
                },
            },
            result is Ok <==> !fetched(old(self)@, images@, responses@, old(pool).used()).failed,
            failed_with(
                old(self)@,
                images@,
                responses@,
                old(pool).used(),
                match result {
                    Ok(_) => Ok(()),
                    Err(e) => Err(e),
                },
            ),
    {
        let ghost kept = self@;
        let ghost urls = urls_of(images@);
        let ghost n = images@.len() as int;
        let ghost wanted = misses(kept, urls, n);
        let ghost given = responses@;
        let ghost used = pool.used();
        match self.store(pool, mailbox, images, responses) {
            Err(e) => {
                return Err(e);
            },
            Ok(()) => {},
        }
        let ghost stored = self@;
        let count = images.len();
        proof {
            lemma_misses(kept, urls, n);
            lemma_progress_counts(given, miss_scales(kept, images@), used, wanted.len() as int);
            assert(n == count);
            assert(stored =~= kept + new_entries(stored, kept.len() as int));
            assert forall|t: int| 0 <= t < n implies cached(stored, #[trigger] urls[t]) by {
                if cached(kept, urls[t]) {
                    lemma_find(kept, urls[t]);
                    let at = find(kept, urls[t]);
                    assert(stored.take(kept.len() as int)[at] == stored[at]);
                    lemma_cached_at(stored, at);
                } else {
                    let j = choose|j: int| 0 <= j < wanted.len() && wanted[j] == urls[t];
                    assert(stored[kept.len() + j].url == wanted[j]);
                    lemma_cached_at(stored, kept.len() + j);
                }
            }
            assert forall|j: int| 0 <= j < stored.len() implies (#[trigger] stored[j]).handles + n
                <= usize::MAX by {
                if j < kept.len() {
                    assert(stored.take(kept.len() as int)[j] == stored[j]);
                    assert(kept[j].handles + n <= usize::MAX);
                } else {
                    assert(stored[kept.len() + (j - kept.len())].handles == 0);
                }
            }
        }
        let mut handles: Vec<CachedImage> = Vec::new();
        let mut i: usize = 0;
        while i < images.len()
            invariant
                i <= images@.len(),
                urls == urls_of(images@),
                n == images@.len(),
                same_pictures(self@, stored),
                distinct_urls(stored),
                forall|j: int|
                    0 <= j < stored.len() ==> (#[trigger] self@[j]).handles == stored[j].handles
                        + occurrences(urls, stored[j].url, i as int),
                forall|j: int|
                    0 <= j < stored.len() ==> (#[trigger] stored[j]).handles + n <= usize::MAX,
                forall|t: int| 0 <= t < n ==> cached(stored, #[trigger] urls[t]),
                handles@.len() == i,
                forall|t: int|
                    0 <= t < i ==> (#[trigger] handles@[t]).shows(stored[find(stored, urls[t])]),
            decreases images@.len() - i,
        {
            let url = &images[i].0;
            assert(urls[i as int] == url@);
            let at = self.position(url);
            proof {
                lemma_find_same(self@, stored, url@);
                lemma_find(stored, url@);
                lemma_occurrences(urls, url@, i as int);
            }
            let ghost before = self@;
            let handle = self.acquire(at);
            handles.push(handle);
            assert forall|j: int| 0 <= j < stored.len() implies (#[trigger] self@[j]).handles
                == stored[j].handles + occurrences(urls, stored[j].url, i + 1) by {
                assert(before[j].handles == stored[j].handles + occurrences(
                    urls,
                    stored[j].url,
                    i as int,
                ));
                if j != at {
                    assert(stored[j].url != stored[at as int].url);
                }
            }
            i = i + 1;
        }
        proof {
            assert(new_entries(self@, kept.len() as int) =~= new_entries(
                stored,
                kept.len() as int,
            )) by {
                assert forall|j: int| 0 <= j < stored.len() - kept.len() implies new_entries(
                    self@,
                    kept.len() as int,
                )[j] == new_entries(stored, kept.len() as int)[j] by {
                    assert(self@[kept.len() + j].url == stored[kept.len() + j].url);
                }
            }
            assert forall|t: int| 0 <= t < images@.len() implies cached(
                self@,
                #[trigger] urls_of(images@)[t],
            ) by {
                lemma_find_same(self@, stored, urls[t]);
                assert(cached(stored, urls[t]));
            }
            assert forall|t: int| 0 <= t < images@.len() implies (#[trigger] handles@[t]).shows(
                self@[find(self@, urls_of(images@)[t])],
            ) by {
                lemma_find_same(self@, stored, urls[t]);
                lemma_find(stored, urls[t]);
                assert(cached(stored, urls[t]));
                let at = find(stored, urls[t]);
                assert(self@[at].url == stored[at].url);
                assert(handles@[t].shows(stored[at]));
            }
            assert forall|j: int| 0 <= j < self@.len() implies (#[trigger] self@[j]).handles
                == stored[j].handles + occurrences(urls, self@[j].url, n) by {
                assert(self@[j].handles == stored[j].handles + occurrences(urls, stored[j].url, n));
            }
            assert(distinct_urls(self@)) by {
                assert forall|a: int, b: int| 0 <= a < b < self@.len() implies self@[a].url
                    != self@[b].url by {
                    assert(self@[a].url == stored[a].url);
                    assert(self@[b].url == stored[b].url);
                }
            }
        }
        Ok(handles)
    }

    /// Takes a handle back. With the last handle to a picture the picture
    /// leaves the cache, and its handle goes back to the pool.
    pub fn release<S, K, W>(
        &mut self,
        handle: CachedImage,
        pool: &mut LogicImgPool,
        mailbox: &mut Mailbox<S, K, W>,
    )
        requires
            old(self).wf(),
        ensures
            final(self).wf(),
            final(self)@ == released(old(self)@, handle.url()),
            ({
                let before = old(self)@;
                let i = find(before, handle.url());
                if evicts(before, handle.url()) {
                    &&& final(pool).used() == old(pool).used().remove(before[i].image)
                    &&& final(mailbox)@ == old(mailbox)@.push(UiMsg::UnloadImage(before[i].image))
                } else {
                    &&& final(pool).used() == old(pool).used()
                    &&& final(mailbox)@ == old(mailbox)@
                }
            }),
    {
        let at = self.position(&handle.url);
        if at >= self.entries.len() {
            return ;
        }
        assert(self@[at as int].handles == self.entries@[at as int].handles);
        assert(self@[at as int].image == self.entries@[at as int].image.image.id());
        if self.entries[at].handles <= 1 {
            let slot = self.entries.remove(at);
            assert(self@ =~= old(self)@.remove(at as int));
            pool.dealloc(slot.image.image, mailbox);
        } else {
            let slot = &mut self.entries[at];
            slot.handles = slot.handles - 1;
            assert(self@ =~= old(self)@.update(
                at as int,
                CacheEntry {
                    handles: (old(self)@[at as int].handles - 1) as nat,
                    ..old(self)@[at as int]
                },
            ));
        }
    }
}

} // verus!

verus! {

/// The entries after `n` handles to the picture of `url` have gone back,
/// one after the other.
pub open spec fn released_times(entries: Seq<CacheEntry>, url: Seq<char>, n: nat) -> Seq<CacheEntry>
    decreases n,
{
    if n == 0 {
        entries
    } else {
        released_times(released(entries, url), url, (n - 1) as nat)
    }
}

proof fn lemma_released_absent(entries: Seq<CacheEntry>, url: Seq<char>, n: nat)
    requires
        !cached(entries, url),
    ensures
        released_times(entries, url, n) == entries,
    decreases n,
{
    if n > 0 {
        lemma_released_absent(entries, url, (n - 1) as nat);
    }
}

/// Once every handle to a picture has gone back, the picture is no longer
/// in the cache.
pub proof fn lemma_all_released(entries: Seq<CacheEntry>, url: Seq<char>, n: nat)
    requires
        distinct_urls(entries),
        cached(entries, url),
        n >= 1,
        entries[find(entries, url)].handles <= n,
    ensures
        !cached(released_times(entries, url, n), url),
        distinct_urls(released_times(entries, url, n)),
    decreases n,
{
    let once = released(entries, url);
    let i = find(entries, url);
    lemma_find(entries, url);
    if evicts(entries, url) {
        lemma_last_release_evicts(entries, url, Seq::empty());
        lemma_released_absent(once, url, (n - 1) as nat);
    } else {
        assert forall|k: int| 0 <= k < entries.len() implies (#[trigger] entries[k]).url
            == once[k].url by {}
        lemma_find_same(entries, once, url);
        assert forall|a: int, b: int| 0 <= a < b < once.len() implies once[a].url
            != once[b].url by {
            assert(entries[a].url == once[a].url && entries[b].url == once[b].url);
        }
        lemma_all_released(once, url, (n - 1) as nat);
    }
}

/// A picture that was in the cache, and to which every handle has gone
/// back, is fetched again by whoever asks for it next: the requests of
/// that call name its URL exactly once.
pub proof fn lemma_fetched_again(
    entries: Seq<CacheEntry>,
    url: Seq<char>,
    n: nat,
    images: Seq<(String, Option<u16>)>,
)
    requires
        distinct_urls(entries),
        cached(entries, url),
        n >= 1,
        entries[find(entries, url)].handles <= n,
        urls_of(images).contains(url),
    ensures
        ({
            let wanted = misses(
                released_times(entries, url, n),
                urls_of(images),
                images.len() as int,
            );
            &&& exists|j: int| 0 <= j < wanted.len() && wanted[j] == url
            &&& forall|j: int, k: int|
                0 <= j < wanted.len() && 0 <= k < wanted.len() && wanted[j] == url && wanted[k]
                    == url ==> j == k
        }),
{
    let after = released_times(entries, url, n);
    let urls = urls_of(images);
    lemma_all_released(entries, url, n);
    let at = choose|at: int| 0 <= at < urls.len() && urls[at] == url;
    lemma_fetched_once(after, urls, at);
    let wanted = misses(after, urls, urls.len() as int);
    assert(wanted.contains(url));
}

/// The handle that a call hands out for a picture that was not in the
/// cache is a handle to an entry that the call has put in: the entry was
/// built from the response to the request for its URL, it has the size of
/// that picture as it is shown, and the lowest number that was free when
/// its turn came.
pub proof fn lemma_fresh_entry<S, K, W>(
    before: Seq<CacheEntry>,
    after: Seq<CacheEntry>,
    images: Seq<(String, Option<u16>)>,
    responses: Seq<Response>,
    used: Set<usize>,
    used_after: Set<usize>,
    letters: Seq<UiMsg<S, K, W>>,
    letters_after: Seq<UiMsg<S, K, W>>,
    handle: CachedImage,
    i: int,
)
    requires
        0 <= i < images.len(),
        !cached(before, urls_of(images)[i]),
        distinct_urls(after),
        !fetched(before, images, responses, used).failed,
        stored_as(
            before,
            before + new_entries(after, before.len() as int),
            images,
            responses,
            used,
            used_after,
            letters,
            letters_after,
        ),
        same_pictures(after, before + new_entries(after, before.len() as int)),
        handle.shows(after[find(after, urls_of(images)[i])]),
    ensures
        ({
            let url = urls_of(images)[i];
            let wanted = misses(before, urls_of(images), images.len() as int);
            let scales = miss_scales(before, images);
            exists|j: int|
                {
                    &&& 0 <= j < wanted.len()
                    &&& wanted[j] == url
                    &&& find(after, url) == before.len() + j
                    &&& shown_picture(#[trigger] responses[j], scales[j]) matches Some(shown)
                        && handle.width() == image_width(shown) && handle.height() == image_height(
                        shown,
                    )
                    &&& handle.image() == lowest_free(progress(responses, scales, used, j).used)
                    &&& handle.url() == url
                }
        }),
{
    let urls = urls_of(images);
    let url = urls[i];
    let n = images.len() as int;
    let wanted = misses(before, urls, n);
    let scales = miss_scales(before, images);
    let stored = before + new_entries(after, before.len() as int);
    lemma_misses(before, urls, n);
    lemma_progress_counts(responses, scales, used, wanted.len() as int);
    assert(wanted.contains(url));
    let j = choose|j: int| 0 <= j < wanted.len() && wanted[j] == url;
    assert(stored_entry(
        stored[before.len() + j],
        wanted[j],
        responses[j],
        scales[j],
        progress(responses, scales, used, j).used,
    ));
    assert(after[before.len() + j].url == stored[before.len() + j].url);
    lemma_find(after, url);
    assert(find(after, url) == before.len() + j);
}

} // verus!
