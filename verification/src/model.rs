//! The canonical in-memory representation of a notification: identity,
//! content, action pairs, typed hints, and its decoders. Action lists arrive
//! on the wire as a flat sequence of strings and are decoded pairwise; hints
//! arrive as a keyed list of dynamically typed values and are decoded into a
//! closed variant set, unknown keys and ill-typed values being dropped.

use crate::image::{
    norm_dim, spec_image_data_defect, spec_normalize_rgba, ImageData,
};
use crate::strutil::str_eq;
use vstd::prelude::*;

verus! {

/// The identifier of a notification action: the reserved "default" action or
/// a custom, application-defined key.
#[derive(Debug, Clone, PartialEq, Eq, Hash)]
pub enum ActionId {
    Default,
    Custom(String),
}

/// Spec-level shape of an [`ActionId`].
pub enum ActionIdV {
    Default,
    Custom(Seq<char>),
}

impl View for ActionId {
    type V = ActionIdV;

    open spec fn view(&self) -> ActionIdV {
        match self {
            ActionId::Default => ActionIdV::Default,
            ActionId::Custom(s) => ActionIdV::Custom(s@),
        }
    }
}

/// The action identifier denoted by a wire string: the literal "default" is
/// the reserved default action, anything else is custom.
pub open spec fn spec_action_id(s: Seq<char>) -> ActionIdV {
    if s == "default"@ {
        ActionIdV::Default
    } else {
        ActionIdV::Custom(s)
    }
}

/// The wire string that denotes an action identifier.
pub open spec fn spec_action_key(a: ActionIdV) -> Seq<char> {
    match a {
        ActionIdV::Default => "default"@,
        ActionIdV::Custom(s) => s,
    }
}

impl ActionId {
    /// Decodes a wire action key.
    pub fn from_key(s: &str) -> (r: ActionId)
        ensures
            r@ == spec_action_id(s@),
    {
        if str_eq(s, "default") {
            ActionId::Default
        } else {
            ActionId::Custom(s.to_owned())
        }
    }

    /// Encodes this action identifier as its wire key.
    pub fn key(&self) -> (r: String)
        ensures
            r@ == spec_action_key(self@),
    {
        match self {
            ActionId::Default => "default".to_owned(),
            ActionId::Custom(s) => s.clone(),
        }
    }
}

/// An icon attached to a notification: an icon-theme name, a filesystem path,
/// or a normalized RGBA buffer.
#[derive(Debug, Clone, PartialEq, Eq, Hash)]
pub enum Image {
    Name(String),
    File(String),
    /// RGBA bytes; `data.len() == width * height * 4`.
    Data { width: u32, height: u32, data: Vec<u8> },
}

/// Spec-level shape of an [`Image`].
pub enum ImageV {
    Name(Seq<char>),
    File(Seq<char>),
    Data { width: u32, height: u32, data: Seq<u8> },
}

impl View for Image {
    type V = ImageV;

    open spec fn view(&self) -> ImageV {
        match self {
            Image::Name(s) => ImageV::Name(s@),
            Image::File(p) => ImageV::File(p@),
            Image::Data { width, height, data } => ImageV::Data {
                width: *width,
                height: *height,
                data: data@,
            },
        }
    }
}

/// A typed notification hint.
#[derive(Debug, Clone, PartialEq, Eq, Hash)]
pub enum Hint {
    ActionIcons(bool),
    Category(String),
    DesktopEntry(String),
    Image(Image),
    IconData(Vec<u8>),
    Resident(bool),
    SoundFile(String),
    SoundName(String),
    SuppressSound(bool),
    Transient(bool),
    Urgency(u8),
    X(i32),
    Y(i32),
}

/// Spec-level shape of a [`Hint`].
pub enum HintV {
    ActionIcons(bool),
    Category(Seq<char>),
    DesktopEntry(Seq<char>),
    Image(ImageV),
    IconData(Seq<u8>),
    Resident(bool),
    SoundFile(Seq<char>),
    SoundName(Seq<char>),
    SuppressSound(bool),
    Transient(bool),
    Urgency(u8),
    X(i32),
    Y(i32),
}

impl View for Hint {
    type V = HintV;

    open spec fn view(&self) -> HintV {
        match self {
            Hint::ActionIcons(b) => HintV::ActionIcons(*b),
            Hint::Category(s) => HintV::Category(s@),
            Hint::DesktopEntry(s) => HintV::DesktopEntry(s@),
            Hint::Image(i) => HintV::Image(i@),
            Hint::IconData(d) => HintV::IconData(d@),
            Hint::Resident(b) => HintV::Resident(*b),
            Hint::SoundFile(s) => HintV::SoundFile(s@),
            Hint::SoundName(s) => HintV::SoundName(s@),
            Hint::SuppressSound(b) => HintV::SuppressSound(*b),
            Hint::Transient(b) => HintV::Transient(*b),
            Hint::Urgency(u) => HintV::Urgency(*u),
            Hint::X(x) => HintV::X(*x),
            Hint::Y(y) => HintV::Y(*y),
        }
    }
}

/// A dynamically typed hint value as it arrives on the wire, reduced to the
/// shapes the decoder distinguishes. Anything else is `Other`.
#[derive(Debug, Clone, PartialEq, Eq)]
pub enum HintValue {
    Bool(bool),
    Str(String),
    I32(i32),
    U8(u8),
    /// The fixed 7-field raster payload of the image-data hint.
    ImageStruct {
        width: i32,
        height: i32,
        rowstride: i32,
        has_alpha: bool,
        bits_per_sample: i32,
        channels: i32,
        data: Vec<u8>,
    },
    Other,
}

/// Spec-level shape of a [`HintValue`].
pub enum HintValueV {
    Bool(bool),
    Str(Seq<char>),
    I32(i32),
    U8(u8),
    ImageStruct {
        width: i32,
        height: i32,
        rowstride: i32,
        has_alpha: bool,
        bits_per_sample: i32,
        channels: i32,
        data: Seq<u8>,
    },
    Other,
}

impl View for HintValue {
    type V = HintValueV;

    open spec fn view(&self) -> HintValueV {
        match self {
            HintValue::Bool(b) => HintValueV::Bool(*b),
            HintValue::Str(s) => HintValueV::Str(s@),
            HintValue::I32(x) => HintValueV::I32(*x),
            HintValue::U8(u) => HintValueV::U8(*u),
            HintValue::ImageStruct {
                width,
                height,
                rowstride,
                has_alpha,
                bits_per_sample,
                channels,
                data,
            } => HintValueV::ImageStruct {
                width: *width,
                height: *height,
                rowstride: *rowstride,
                has_alpha: *has_alpha,
                bits_per_sample: *bits_per_sample,
                channels: *channels,
                data: data@,
            },
            HintValue::Other => HintValueV::Other,
        }
    }
}

/// Why a notification was closed, with its wire-stable numeric code.
#[derive(Debug, Clone, Copy, PartialEq, Eq, Hash)]
pub enum CloseReason {
    Expired,
    Dismissed,
    CloseNotification,
    Undefined,
}

/// The numeric code each close reason carries on the wire. This numbering is
/// part of the external protocol and must not change.
pub open spec fn spec_reason_code(r: CloseReason) -> u32 {
    match r {
        CloseReason::Expired => 1,
        CloseReason::Dismissed => 2,
        CloseReason::CloseNotification => 3,
        CloseReason::Undefined => 4,
    }
}

impl CloseReason {
    /// The wire code of this reason: Expired=1, Dismissed=2,
    /// CloseNotification=3, Undefined=4.
    pub fn code(&self) -> (c: u32)
        ensures
            c == spec_reason_code(*self),
    {
        match self {
            CloseReason::Expired => 1,
            CloseReason::Dismissed => 2,
            CloseReason::CloseNotification => 3,
            CloseReason::Undefined => 4,
        }
    }
}

/// The views of a sequence of strings.
pub open spec fn strings_view(s: Seq<String>) -> Seq<Seq<char>> {
    s.map_values(|x: String| x@)
}

/// The views of a sequence of decoded action pairs.
pub open spec fn actions_view(a: Seq<(ActionId, String)>) -> Seq<(ActionIdV, Seq<char>)> {
    a.map_values(|p: (ActionId, String)| (p.0@, p.1@))
}

/// The views of a sequence of decoded hints.
pub open spec fn hints_view(h: Seq<Hint>) -> Seq<HintV> {
    h.map_values(|x: Hint| x@)
}

/// The views of a sequence of keyed wire hint values.
pub open spec fn hint_args_view(h: Seq<(String, HintValue)>) -> Seq<(Seq<char>, HintValueV)> {
    h.map_values(|p: (String, HintValue)| (p.0@, p.1@))
}

/// Pairwise decoding of a flat action list: element 2i is the identifier of
/// pair i, element 2i+1 its label; a trailing unpaired element is dropped.
pub open spec fn spec_decode_actions(a: Seq<Seq<char>>) -> Seq<(ActionIdV, Seq<char>)> {
    Seq::new(a.len() / 2, |i: int| (spec_action_id(a[2 * i]), a[2 * i + 1]))
}

/// The flat wire form of a list of action pairs.
pub open spec fn spec_encode_actions(a: Seq<(ActionIdV, Seq<char>)>) -> Seq<Seq<char>> {
    Seq::new(2 * a.len(), |i: int| if i % 2 == 0 {
        spec_action_key(a[i / 2].0)
    } else {
        a[i / 2].1
    })
}

/// Decodes a flat action list pairwise, dropping a trailing unpaired element.
pub fn decode_actions(actions: &Vec<String>) -> (r: Vec<(ActionId, String)>)
    ensures
        actions_view(r@) == spec_decode_actions(strings_view(actions@)),
{
    let n = actions.len();
    let pairs = n / 2;
    let mut r: Vec<(ActionId, String)> = Vec::new();
    let mut k: usize = 0;
    while k < pairs
        invariant
            n == actions@.len(),
            pairs == n / 2,
            k <= pairs,
            r@.len() == k,
            forall|j: int|
                0 <= j < k ==> (#[trigger] r@[j]).0@ == spec_action_id(actions@[2 * j]@)
                    && r@[j].1@ == actions@[2 * j + 1]@,
        decreases pairs - k,
    {
        let a = ActionId::from_key(actions[2 * k].as_str());
        let label = actions[2 * k + 1].clone();
        r.push((a, label));
        k += 1;
    }
    proof {
        assert(actions_view(r@) =~= spec_decode_actions(strings_view(actions@)));
    }
    r
}

/// Encodes action pairs back into the flat wire list.
pub fn encode_actions(actions: &Vec<(ActionId, String)>) -> (r: Vec<String>)
    ensures
        strings_view(r@) == spec_encode_actions(actions_view(actions@)),
{
    let n = actions.len();
    let mut r: Vec<String> = Vec::new();
    let mut k: usize = 0;
    while k < n
        invariant
            n == actions@.len(),
            k <= n,
            r@.len() == 2 * k,
            forall|j: int|
                0 <= j < k ==> (#[trigger] r@[2 * j])@ == spec_action_key(actions@[j].0@)
                    && r@[2 * j + 1]@ == actions@[j].1@,
        decreases n - k,
    {
        let key = actions[k].0.key();
        let label = actions[k].1.clone();
        proof {
            assert(key@ == spec_action_key(actions@[k as int].0@));
            assert(label@ == actions@[k as int].1@);
        }
        let ghost r_old = r@;
        r.push(key);
        r.push(label);
        proof {
            assert(r@ == r_old.push(key).push(label));
            assert(r@[2 * k as int] == key);
            assert(r@[2 * k as int + 1] == label);
            assert(forall|j: int| 0 <= j < 2 * k ==> r@[j] == r_old[j]);
        }
        k += 1;
    }
    proof {
        let av = actions_view(actions@);
        let target = spec_encode_actions(av);
        assert(r@.len() == target.len());
        assert forall|i: int|
            0 <= i < r@.len() implies #[trigger] strings_view(r@)[i] == target[i] by {
            let j = i / 2;
            assert(0 <= j < n);
            if i % 2 == 0 {
                assert(i == 2 * j);
                assert(r@[2 * j]@ == spec_action_key(actions@[j].0@));
                assert(av[j].0 == actions@[j].0@);
            } else {
                assert(i == 2 * j + 1);
                assert(r@[2 * j]@ == spec_action_key(actions@[j].0@));
                assert(r@[2 * j + 1]@ == actions@[j].1@);
                assert(av[j].1 == actions@[j].1@);
            }
        }
        assert(strings_view(r@) =~= target);
    }
    r
}

/// Decoding inverts encoding: a list of action pairs whose custom identifiers
/// do not use the reserved "default" key survives the round trip through the
/// flat wire form unchanged.
pub proof fn lemma_actions_round_trip(a: Seq<(ActionIdV, Seq<char>)>)
    requires
        forall|i: int|
            0 <= i < a.len() ==> ((#[trigger] a[i]).0 matches ActionIdV::Custom(s) ==> s
                != "default"@),
    ensures
        spec_decode_actions(spec_encode_actions(a)) == a,
{
    let e = spec_encode_actions(a);
    assert(e.len() == 2 * a.len());
    assert forall|i: int| 0 <= i < a.len() implies #[trigger] spec_decode_actions(e)[i] == a[i] by {
        assert(e[2 * i] == spec_action_key(a[i].0));
        assert(e[2 * i + 1] == a[i].1);
        assert(spec_action_id(spec_action_key(a[i].0)) == a[i].0);
    }
    assert(spec_decode_actions(e) =~= a);
}


/// What parsing the image-path hint string as a URL yields: the local path
/// when the string is a file:// URL, None otherwise.
pub uninterp spec fn parsed_file_path(s: Seq<char>) -> Option<Seq<char>>;

/// Relies on url::Url::parse and url::Url::to_file_path: a string that parses
/// as a URL with a local file path is unwrapped to that path; anything else
/// (unparseable, no file path, or a path that is not UTF-8) yields None. The
/// result depends only on the characters of the input.
#[verifier::external_body]
fn url_to_file_path(s: &str) -> (r: Option<String>)
    ensures
        match r {
            Some(p) => parsed_file_path(s@) == Some(p@),
            None => parsed_file_path(s@) is None,
        },
{
    match url::Url::parse(s).ok().and_then(|u| u.to_file_path().ok()) {
        Some(path) => path.into_os_string().into_string().ok(),
        None => None,
    }
}

/// The hint denoted by one keyed wire value, or None where the key is unknown
/// or the value has the wrong shape. For the image-data keys, the raster
/// payload must validate (see `spec_image_data_defect`) and is normalized to
/// an RGBA thumbnail; an invalid payload drops the hint, never the
/// notification.
pub open spec fn spec_decode_hint(k: Seq<char>, v: HintValueV) -> Option<HintV> {
    if k == "action-icons"@ {
        match v {
            HintValueV::Bool(b) => Some(HintV::ActionIcons(b)),
            _ => None,
        }
    } else if k == "category"@ {
        match v {
            HintValueV::Str(s) => Some(HintV::Category(s)),
            _ => None,
        }
    } else if k == "desktop-entry"@ {
        match v {
            HintValueV::Str(s) => Some(HintV::DesktopEntry(s)),
            _ => None,
        }
    } else if k == "resident"@ {
        match v {
            HintValueV::Bool(b) => Some(HintV::Resident(b)),
            _ => None,
        }
    } else if k == "sound-file"@ {
        match v {
            HintValueV::Str(s) => Some(HintV::SoundFile(s)),
            _ => None,
        }
    } else if k == "sound-name"@ {
        match v {
            HintValueV::Str(s) => Some(HintV::SoundName(s)),
            _ => None,
        }
    } else if k == "suppress-sound"@ {
        match v {
            HintValueV::Bool(b) => Some(HintV::SuppressSound(b)),
            _ => None,
        }
    } else if k == "transient"@ {
        match v {
            HintValueV::Bool(b) => Some(HintV::Transient(b)),
            _ => None,
        }
    } else if k == "x"@ {
        match v {
            HintValueV::I32(x) => Some(HintV::X(x)),
            _ => None,
        }
    } else if k == "y"@ {
        match v {
            HintValueV::I32(y) => Some(HintV::Y(y)),
            _ => None,
        }
    } else if k == "urgency"@ {
        match v {
            HintValueV::U8(u) => Some(HintV::Urgency(u)),
            _ => None,
        }
    } else if k == "image-path"@ || k == "image_path"@ {
        match v {
            HintValueV::Str(s) => Some(
                HintV::Image(
                    match parsed_file_path(s) {
                        Some(p) => ImageV::File(p),
                        None => ImageV::Name(s),
                    },
                ),
            ),
            _ => None,
        }
    } else if k == "image-data"@ || k == "image_data"@ || k == "icon_data"@ {
        match v {
            HintValueV::ImageStruct {
                width,
                height,
                rowstride,
                has_alpha,
                bits_per_sample,
                channels,
                data,
            } => {
                if spec_image_data_defect(
                    width,
                    height,
                    rowstride,
                    has_alpha,
                    bits_per_sample,
                    channels,
                    data,
                ) is None && width * 4 <= i32::MAX {
                    Some(
                        HintV::Image(
                            ImageV::Data {
                                width: norm_dim(width as u32),
                                height: norm_dim(height as u32),
                                data: spec_normalize_rgba(
                                    width as u32,
                                    height as u32,
                                    has_alpha,
                                    data,
                                ),
                            },
                        ),
                    )
                } else {
                    None
                }
            },
            _ => None,
        }
    } else {
        None
    }
}

/// The view of an optional hint.
pub open spec fn opt_hint_view(r: Option<Hint>) -> Option<HintV> {
    match r {
        Some(h) => Some(h@),
        None => None,
    }
}

/// The length invariant of a raster image hint: a `Data` image carries
/// exactly `width * height * 4` RGBA bytes; every other hint holds trivially.
pub open spec fn spec_image_data_len_ok(h: HintV) -> bool {
    match h {
        HintV::Image(ImageV::Data { width, height, data }) => data.len() == width * height * 4,
        _ => true,
    }
}

/// Every hint of the list satisfies the raster length invariant.
pub open spec fn spec_hints_data_len_ok(hs: Seq<HintV>) -> bool {
    forall|i: int| 0 <= i < hs.len() ==> spec_image_data_len_ok(#[trigger] hs[i])
}

/// Decodes one keyed wire value into a hint, per `spec_decode_hint`; a
/// decoded raster image carries exactly `width * height * 4` bytes.
pub fn decode_hint(k: &str, v: HintValue) -> (r: Option<Hint>)
    ensures
        opt_hint_view(r) == spec_decode_hint(k@, v@),
        r matches Some(h) ==> spec_image_data_len_ok(h@),
{
    if str_eq(k, "action-icons") {
        match v {
            HintValue::Bool(b) => Some(Hint::ActionIcons(b)),
            _ => None,
        }
    } else if str_eq(k, "category") {
        match v {
            HintValue::Str(s) => Some(Hint::Category(s)),
            _ => None,
        }
    } else if str_eq(k, "desktop-entry") {
        match v {
            HintValue::Str(s) => Some(Hint::DesktopEntry(s)),
            _ => None,
        }
    } else if str_eq(k, "resident") {
        match v {
            HintValue::Bool(b) => Some(Hint::Resident(b)),
            _ => None,
        }
    } else if str_eq(k, "sound-file") {
        match v {
            HintValue::Str(s) => Some(Hint::SoundFile(s)),
            _ => None,
        }
    } else if str_eq(k, "sound-name") {
        match v {
            HintValue::Str(s) => Some(Hint::SoundName(s)),
            _ => None,
        }
    } else if str_eq(k, "suppress-sound") {
        match v {
            HintValue::Bool(b) => Some(Hint::SuppressSound(b)),
            _ => None,
        }
    } else if str_eq(k, "transient") {
        match v {
            HintValue::Bool(b) => Some(Hint::Transient(b)),
            _ => None,
        }
    } else if str_eq(k, "x") {
        match v {
            HintValue::I32(x) => Some(Hint::X(x)),
            _ => None,
        }
    } else if str_eq(k, "y") {
        match v {
            HintValue::I32(y) => Some(Hint::Y(y)),
            _ => None,
        }
    } else if str_eq(k, "urgency") {
        match v {
            HintValue::U8(u) => Some(Hint::Urgency(u)),
            _ => None,
        }
    } else if str_eq(k, "image-path") || str_eq(k, "image_path") {
        match v {
            HintValue::Str(s) => Some(
                Hint::Image(
                    match url_to_file_path(s.as_str()) {
                        Some(p) => Image::File(p),
                        None => Image::Name(s),
                    },
                ),
            ),
            _ => None,
        }
    } else if str_eq(k, "image-data") || str_eq(k, "image_data") || str_eq(k, "icon_data") {
        match v {
            HintValue::ImageStruct {
                width,
                height,
                rowstride,
                has_alpha,
                bits_per_sample,
                channels,
                data,
            } => {
                match ImageData::try_from_parts(
                    width,
                    height,
                    rowstride,
                    has_alpha,
                    bits_per_sample,
                    channels,
                    data,
                ) {
                    Ok(img) => {
                        if img.width <= 0x7FFF_FFFFu32 / 4 {
                            let rgba = img.into_rgba();
                            Some(
                                Hint::Image(
                                    Image::Data {
                                        width: rgba.width,
                                        height: rgba.height,
                                        data: rgba.data,
                                    },
                                ),
                            )
                        } else {
                            None
                        }
                    },
                    Err(_) => None,
                }
            },
            _ => None,
        }
    } else {
        None
    }
}

/// Order-preserving decoding of a keyed wire hint list: each entry decodes
/// per `spec_decode_hint`; entries that decode to None are dropped.
pub open spec fn spec_decode_hints(s: Seq<(Seq<char>, HintValueV)>) -> Seq<HintV>
    decreases s.len(),
{
    if s.len() == 0 {
        Seq::empty()
    } else {
        let rest = spec_decode_hints(s.drop_last());
        match spec_decode_hint(s.last().0, s.last().1) {
            Some(h) => rest.push(h),
            None => rest,
        }
    }
}

/// Decodes a keyed wire hint list, dropping unknown keys and ill-typed
/// values.
pub fn decode_hints(hints: Vec<(String, HintValue)>) -> (r: Vec<Hint>)
    ensures
        hints_view(r@) == spec_decode_hints(hint_args_view(hints@)),
        spec_hints_data_len_ok(hints_view(r@)),
{
    let ghost orig = hint_args_view(hints@);
    let mut rest = hints;
    let mut out: Vec<Hint> = Vec::new();
    let ghost mut k: int = 0int;
    while rest.len() > 0
        invariant
            0 <= k <= orig.len(),
            k + rest@.len() == orig.len(),
            hint_args_view(rest@) =~= orig.skip(k),
            hints_view(out@) == spec_decode_hints(orig.take(k)),
            spec_hints_data_len_ok(hints_view(out@)),
        decreases rest@.len(),
    {
        let ghost out_old = out@;
        let ghost rest_old = rest@;
        let (key, val) = rest.remove(0);
        proof {
            assert(hint_args_view(rest_old)[0] == (key@, val@));
            assert(orig[k] == (key@, val@));
        }
        let decoded = decode_hint(key.as_str(), val);
        let ghost dv = opt_hint_view(decoded);
        match decoded {
            Some(h) => {
                let ghost hv = h@;
                out.push(h);
                proof {
                    assert(dv == Some(hv));
                    assert(hints_view(out@) =~= hints_view(out_old).push(hv));
                    assert(spec_image_data_len_ok(hv));
                    assert(forall|j: int|
                        0 <= j < hints_view(out@).len() ==> spec_image_data_len_ok(
                            #[trigger] hints_view(out@)[j],
                        ));
                }
            },
            None => {},
        }
        proof {
            assert(orig.take(k + 1).drop_last() =~= orig.take(k));
            assert(orig.take(k + 1).last() == orig[k]);
            assert(spec_decode_hints(orig.take(k + 1)) == match spec_decode_hint(
                orig[k].0,
                orig[k].1,
            ) {
                Some(h) => spec_decode_hints(orig.take(k)).push(h),
                None => spec_decode_hints(orig.take(k)),
            });
            k = k + 1;
            assert(hint_args_view(rest@) =~= orig.skip(k)) by {
                assert forall|j: int|
                    0 <= j < rest@.len() implies #[trigger] hint_args_view(rest@)[j] == orig.skip(
                    k,
                )[j] by {
                    assert(rest@[j] == rest_old[j + 1]);
                    assert(hint_args_view(rest@)[j] == (rest@[j].0@, rest@[j].1@));
                    assert(hint_args_view(rest_old)[j + 1] == (rest_old[j + 1].0@, rest_old[j
                        + 1].1@));
                    assert(hint_args_view(rest_old)[j + 1] == orig.skip(k - 1)[j + 1]);
                    assert(orig.skip(k - 1)[j + 1] == orig[k + j]);
                    assert(orig.skip(k)[j] == orig[k + j]);
                }
            }
        }
    }
    proof {
        assert(k == orig.len());
        assert(orig.take(k) =~= orig);
    }
    out
}

/// A notification as admitted into the pipeline.
#[derive(Debug, Clone, PartialEq, Eq, Hash)]
pub struct Notification {
    pub id: u32,
    pub app_name: String,
    pub app_icon: String,
    pub summary: String,
    pub body: String,
    pub actions: Vec<(ActionId, String)>,
    pub hints: Vec<Hint>,
    pub expire_timeout: i32,
    /// Creation instant in milliseconds, supplied by the caller's clock; used
    /// for tie-breaking and stale-drop decisions.
    pub time: u64,
}

impl Notification {
    /// Builds a notification from the wire arguments of a Notify call:
    /// actions are decoded pairwise, hints are decoded per key, and the
    /// caller supplies the already-settled id and the current instant.
    pub fn new(
        app_name: &str,
        id: u32,
        app_icon: &str,
        summary: &str,
        body: &str,
        actions: Vec<String>,
        hints: Vec<(String, HintValue)>,
        expire_timeout: i32,
        time: u64,
    ) -> (n: Notification)
        ensures
            n.id == id,
            n.app_name@ == app_name@,
            n.app_icon@ == app_icon@,
            n.summary@ == summary@,
            n.body@ == body@,
            actions_view(n.actions@) == spec_decode_actions(strings_view(actions@)),
            hints_view(n.hints@) == spec_decode_hints(hint_args_view(hints@)),
            spec_hints_data_len_ok(hints_view(n.hints@)),
            n.expire_timeout == expire_timeout,
            n.time == time,
    {
        let decoded_actions = decode_actions(&actions);
        let decoded_hints = decode_hints(hints);
        Notification {
            id,
            app_name: app_name.to_owned(),
            app_icon: app_icon.to_owned(),
            summary: summary.to_owned(),
            body: body.to_owned(),
            actions: decoded_actions,
            hints: decoded_hints,
            expire_timeout,
            time,
        }
    }
}

/// Whether a hint list marks the notification transient.
pub open spec fn spec_transient(hs: Seq<HintV>) -> bool {
    exists|i: int| 0 <= i < hs.len() && hs[i] == HintV::Transient(true)
}

/// The first category hint, if any.
pub open spec fn spec_category(hs: Seq<HintV>) -> Option<Seq<char>>
    decreases hs.len(),
{
    if hs.len() == 0 {
        None
    } else {
        match hs[0] {
            HintV::Category(s) => Some(s),
            _ => spec_category(hs.drop_first()),
        }
    }
}

/// The first desktop-entry hint, if any.
pub open spec fn spec_desktop_entry(hs: Seq<HintV>) -> Option<Seq<char>>
    decreases hs.len(),
{
    if hs.len() == 0 {
        None
    } else {
        match hs[0] {
            HintV::DesktopEntry(s) => Some(s),
            _ => spec_desktop_entry(hs.drop_first()),
        }
    }
}

/// The first urgency hint, or 1 (normal) where none is set.
pub open spec fn spec_urgency(hs: Seq<HintV>) -> u8
    decreases hs.len(),
{
    if hs.len() == 0 {
        1
    } else {
        match hs[0] {
            HintV::Urgency(u) => u,
            _ => spec_urgency(hs.drop_first()),
        }
    }
}

/// The first image hint, if any.
pub open spec fn spec_image(hs: Seq<HintV>) -> Option<ImageV>
    decreases hs.len(),
{
    if hs.len() == 0 {
        None
    } else {
        match hs[0] {
            HintV::Image(img) => Some(img),
            _ => spec_image(hs.drop_first()),
        }
    }
}

impl Notification {
    /// Whether this notification is marked transient: a transient
    /// notification is not fanned out to applets.
    pub fn transient(&self) -> (r: bool)
        ensures
            r == spec_transient(hints_view(self.hints@)),
    {
        let n = self.hints.len();
        let mut i: usize = 0;
        while i < n
            invariant
                n == self.hints@.len(),
                i <= n,
                forall|j: int|
                    0 <= j < i ==> #[trigger] hints_view(self.hints@)[j] != HintV::Transient(
                        true,
                    ),
            decreases n - i,
        {
            let h = &self.hints[i];
            match h {
                Hint::Transient(b) => {
                    if *b {
                        proof {
                            assert(hints_view(self.hints@)[i as int] == HintV::Transient(true));
                        }
                        return true;
                    }
                },
                _ => {},
            }
            proof {
                assert(hints_view(self.hints@)[i as int] == self.hints@[i as int]@);
            }
            i += 1;
        }
        false
    }

    /// The first category hint, if any.
    pub fn category(&self) -> (r: Option<&str>)
        ensures
            match r {
                Some(s) => spec_category(hints_view(self.hints@)) == Some(s@),
                None => spec_category(hints_view(self.hints@)) is None,
            },
    {
        let ghost hs = hints_view(self.hints@);
        proof {
            assert(hs.skip(0) =~= hs);
        }
        let n = self.hints.len();
        let mut i: usize = 0;
        while i < n
            invariant
                hs == hints_view(self.hints@),
                n == self.hints@.len(),
                i <= n,
                spec_category(hs) == spec_category(hs.skip(i as int)),
            decreases n - i,
        {
            let h = &self.hints[i];
            proof {
                assert(hs.skip(i as int)[0] == hs[i as int]);
                assert(hs[i as int] == self.hints@[i as int]@);
                assert(hs.skip(i as int).drop_first() =~= hs.skip(i as int + 1));
            }
            match h {
                Hint::Category(s) => {
                    return Some(s.as_str());
                },
                _ => {},
            }
            i += 1;
        }
        proof {
            assert(hs.skip(n as int) =~= Seq::<HintV>::empty());
        }
        None
    }

    /// The first desktop-entry hint, if any.
    pub fn desktop_entry(&self) -> (r: Option<&str>)
        ensures
            match r {
                Some(s) => spec_desktop_entry(hints_view(self.hints@)) == Some(s@),
                None => spec_desktop_entry(hints_view(self.hints@)) is None,
            },
    {
        let ghost hs = hints_view(self.hints@);
        proof {
            assert(hs.skip(0) =~= hs);
        }
        let n = self.hints.len();
        let mut i: usize = 0;
        while i < n
            invariant
                hs == hints_view(self.hints@),
                n == self.hints@.len(),
                i <= n,
                spec_desktop_entry(hs) == spec_desktop_entry(hs.skip(i as int)),
            decreases n - i,
        {
            let h = &self.hints[i];
            proof {
                assert(hs.skip(i as int)[0] == hs[i as int]);
                assert(hs[i as int] == self.hints@[i as int]@);
                assert(hs.skip(i as int).drop_first() =~= hs.skip(i as int + 1));
            }
            match h {
                Hint::DesktopEntry(s) => {
                    return Some(s.as_str());
                },
                _ => {},
            }
            i += 1;
        }
        proof {
            assert(hs.skip(n as int) =~= Seq::<HintV>::empty());
        }
        None
    }

    /// The urgency of this notification: the first urgency hint, or 1
    /// (normal) where none is set.
    pub fn urgency(&self) -> (r: u8)
        ensures
            r == spec_urgency(hints_view(self.hints@)),
    {
        let ghost hs = hints_view(self.hints@);
        proof {
            assert(hs.skip(0) =~= hs);
        }
        let n = self.hints.len();
        let mut i: usize = 0;
        while i < n
            invariant
                hs == hints_view(self.hints@),
                n == self.hints@.len(),
                i <= n,
                spec_urgency(hs) == spec_urgency(hs.skip(i as int)),
            decreases n - i,
        {
            let h = &self.hints[i];
            proof {
                assert(hs.skip(i as int)[0] == hs[i as int]);
                assert(hs[i as int] == self.hints@[i as int]@);
                assert(hs.skip(i as int).drop_first() =~= hs.skip(i as int + 1));
            }
            match h {
                Hint::Urgency(u) => {
                    return *u;
                },
                _ => {},
            }
            i += 1;
        }
        proof {
            assert(hs.skip(n as int) =~= Seq::<HintV>::empty());
        }
        1
    }

    /// The first image hint, if any.
    pub fn image(&self) -> (r: Option<&Image>)
        ensures
            match r {
                Some(img) => spec_image(hints_view(self.hints@)) == Some(img@),
                None => spec_image(hints_view(self.hints@)) is None,
            },
    {
        let ghost hs = hints_view(self.hints@);
        proof {
            assert(hs.skip(0) =~= hs);
        }
        let n = self.hints.len();
        let mut i: usize = 0;
        while i < n
            invariant
                hs == hints_view(self.hints@),
                n == self.hints@.len(),
                i <= n,
                spec_image(hs) == spec_image(hs.skip(i as int)),
            decreases n - i,
        {
            let h = &self.hints[i];
            proof {
                assert(hs.skip(i as int)[0] == hs[i as int]);
                assert(hs[i as int] == self.hints@[i as int]@);
                assert(hs.skip(i as int).drop_first() =~= hs.skip(i as int + 1));
            }
            match h {
                Hint::Image(img) => {
                    return Some(img);
                },
                _ => {},
            }
            i += 1;
        }
        proof {
            assert(hs.skip(n as int) =~= Seq::<HintV>::empty());
        }
        None
    }

    /// Milliseconds elapsed since this notification was created, measured
    /// against the caller's clock; None where that clock reads earlier than
    /// the creation instant.
    pub fn duration_since(&self, now: u64) -> (r: Option<u64>)
        ensures
            r == if now >= self.time {
                Some((now - self.time) as u64)
            } else {
                None::<u64>
            },
    {
        if now >= self.time {
            Some(now - self.time)
        } else {
            None
        }
    }
}

} // verus!
