//! Finding the iRig USB among the kernel-streaming devices.

use vstd::prelude::*;
use vstd::string::*;
use crate::constants::IRIG_VID;
use crate::guid::{Guid, GuidModel};
use crate::ks_pin::{KsPin, PinModel};
use crate::le::{le16, read_u16};
use crate::text::{contains, has, hex, hex4, law_search, lowercase, push_hex4, uppercase};
use crate::utf16::{decode, decoded};

verus! {

/// The device interface categories that are searched.
#[derive(Clone, Copy, Debug, PartialEq, Eq, Structural)]
pub enum Category {
    /// `KSCATEGORY_CAPTURE` {65E8773D-8F56-11D0-A3B9-00A0C9223196}
    Capture,
    /// `KSCATEGORY_RENDER` {65E8773E-8F56-11D0-A3B9-00A0C9223196}
    Render,
    /// `KSCATEGORY_AUDIO` {6994AD04-93EF-11D0-A3CC-00A0C9223196}
    Audio,
}

impl Category {
    /// The identifier of the category.
    pub open spec fn guid_spec(self) -> GuidModel {
        match self {
            Category::Capture => GuidModel {
                data1: 0x65E8773D,
                data2: 0x8F56,
                data3: 0x11D0,
                data4: seq![0xA3u8, 0xB9, 0x00, 0xA0, 0xC9, 0x22, 0x31, 0x96],
            },
            Category::Render => GuidModel {
                data1: 0x65E8773E,
                data2: 0x8F56,
                data3: 0x11D0,
                data4: seq![0xA3u8, 0xB9, 0x00, 0xA0, 0xC9, 0x22, 0x31, 0x96],
            },
            Category::Audio => GuidModel {
                data1: 0x6994AD04,
                data2: 0x93EF,
                data3: 0x11D0,
                data4: seq![0xA3u8, 0xCC, 0x00, 0xA0, 0xC9, 0x22, 0x31, 0x96],
            },
        }
    }

    /// The identifier of the category.
    pub fn guid(&self) -> (r: Guid)
        ensures
            r@ == self.guid_spec(),
    {
        let r = match self {
            Category::Capture => Guid {
                data1: 0x65E8773D,
                data2: 0x8F56,
                data3: 0x11D0,
                data4: [0xA3, 0xB9, 0x00, 0xA0, 0xC9, 0x22, 0x31, 0x96],
            },
            Category::Render => Guid {
                data1: 0x65E8773E,
                data2: 0x8F56,
                data3: 0x11D0,
                data4: [0xA3, 0xB9, 0x00, 0xA0, 0xC9, 0x22, 0x31, 0x96],
            },
            Category::Audio => Guid {
                data1: 0x6994AD04,
                data2: 0x93EF,
                data3: 0x11D0,
                data4: [0xA3, 0xCC, 0x00, 0xA0, 0xC9, 0x22, 0x31, 0x96],
            },
        };
        assert(r.data4@ =~= self.guid_spec().data4);
        r
    }
}

// ---------------------------------------------------------------------------
// The devices of one category
// ---------------------------------------------------------------------------

/// The part of `s` in front of its first zero.
pub open spec fn before_nul(s: Seq<u16>) -> Seq<u16>
    decreases s.len(),
{
    if s.len() == 0 || s[0] == 0 {
        Seq::empty()
    } else {
        seq![s[0]] + before_nul(s.skip(1))
    }
}

/// The 16-bit units behind the four-byte size field of an interface detail.
pub open spec fn detail_units(detail: Seq<u8>) -> Seq<u16> {
    Seq::new(((detail.len() - 4) / 2) as nat, |i: int| le16(detail, 4 + 2 * i) as u16)
}

/// The device path in an interface detail: the units up to the first zero.
pub open spec fn detail_path(detail: Seq<u8>) -> Seq<u16> {
    before_nul(detail_units(detail))
}

/// Reads the device path in an interface detail.
pub fn device_path(detail: &Vec<u8>) -> (r: Vec<u16>)
    requires
        detail.len() >= 4,
    ensures
        r@ == detail_path(detail@),
{
    let n = (detail.len() - 4) / 2;
    let mut r: Vec<u16> = Vec::new();
    let mut i: usize = 0;
    let ghost all = detail_units(detail@);
    assert(all.skip(0) =~= all);
    while i < n
        invariant
            detail.len() >= 4,
            n == (detail.len() - 4) / 2,
            all == detail_units(detail@),
            i <= n,
            r@ + before_nul(all.skip(i as int)) == before_nul(all),
        decreases n - i,
    {
        let u = read_u16(detail, 4 + 2 * i);
        let ghost rest = all.skip(i as int);
        assert(rest[0] == u);
        if u == 0 {
            assert(r@ =~= before_nul(all));
            return r;
        }
        let ghost before = r@;
        r.push(u);
        i += 1;
        assert(rest.skip(1) =~= all.skip(i as int));
        assert(r@ + before_nul(all.skip(i as int)) =~= before + before_nul(rest));
    }
    assert(all.skip(n as int) =~= Seq::empty());
    assert(r@ =~= before_nul(all));
    r
}

/// The mark of the interfaces in a device path: their vendor. The iRig USB is one
/// of them; the others of the vendor are served as well.
pub open spec fn id_fragment() -> Seq<char> {
    "VID_1963"@
}

proof fn lemma_id_fragment()
    ensures
        "VID_"@ + hex4(IRIG_VID as nat) == id_fragment(),
{
    reveal_strlit("VID_");
    reveal_strlit("VID_1963");
    reveal_with_fuel(hex, 4);
    assert("VID_"@ + hex4(IRIG_VID as nat) =~= "VID_1963"@);
}

/// The mark of the interfaces in a device path.
pub fn vid_fragment() -> (r: String)
    ensures
        r@ == id_fragment(),
{
    proof {
        lemma_id_fragment();
    }
    let mut r = String::from_str("VID_");
    push_hex4(&mut r, IRIG_VID);
    r
}

/// Whether a device path belongs to one of the interfaces, from the path and the
/// mark, both in uppercase.
pub fn is_irig_path(upper_path: &str, upper_fragment: &str) -> (r: bool)
    ensures
        r == has(upper_path@, upper_fragment@),
{
    contains(upper_path, upper_fragment)
}

/// The device path belongs to one of the interfaces, whatever the case of its
/// letters.
pub open spec fn names_irig(path: Seq<u16>) -> bool {
    has(uppercase(decoded(path)), uppercase(id_fragment()))
}

/// The paths of the interfaces among the given interface details.
pub open spec fn irig_paths(details: Seq<Vec<u8>>) -> Seq<Seq<u16>>
    decreases details.len(),
{
    if details.len() == 0 {
        Seq::empty()
    } else {
        let before = irig_paths(details.drop_last());
        let path = detail_path(details.last()@);
        if names_irig(path) {
            before.push(path)
        } else {
            before
        }
    }
}

/// The paths of the iRig USB, and of the vendor's other interfaces, among the
/// interface details of one category, in their order.
pub fn enumerate_category_paths(details: &Vec<Vec<u8>>) -> (r: Vec<Vec<u16>>)
    requires
        forall|i: int| 0 <= i < details.len() ==> (#[trigger] details@[i]).len() >= 4,
    ensures
        r@.map_values(|p: Vec<u16>| p@) == irig_paths(details@),
{
    let fragment = vid_fragment();
    let upper_fragment = fragment.as_str().to_uppercase();
    let mut r: Vec<Vec<u16>> = Vec::new();
    let mut i: usize = 0;
    assert(r@.map_values(|p: Vec<u16>| p@) =~= irig_paths(details@.take(0)));
    while i < details.len()
        invariant
            i <= details.len(),
            forall|k: int| 0 <= k < details.len() ==> (#[trigger] details@[k]).len() >= 4,
            upper_fragment@ == uppercase(id_fragment()),
            r@.map_values(|p: Vec<u16>| p@) == irig_paths(details@.take(i as int)),
        decreases details.len() - i,
    {
        let path = device_path(&details[i]);
        let text = decode(&path, path.len());
        let upper = text.as_str().to_uppercase();
        let ghost before = r@;
        let ghost units = path@;
        assert(path@.take(path@.len() as int) =~= path@);
        assert(details@.take(i + 1).drop_last() =~= details@.take(i as int));
        if is_irig_path(upper.as_str(), upper_fragment.as_str()) {
            r.push(path);
            assert(r@.map_values(|p: Vec<u16>| p@) =~= before.map_values(
                |p: Vec<u16>| p@,
            ).push(units));
        }
        i += 1;
    }
    assert(details@.take(details@.len() as int) =~= details@);
    r
}

// ---------------------------------------------------------------------------
// All devices
// ---------------------------------------------------------------------------

/// A device path.
#[derive(Debug)]
pub struct DevicePath {
    /// The path in UTF-16 units.
    pub wide: Vec<u16>,
}

/// What a [`DevicePath`] holds.
pub struct PathModel {
    pub wide: Seq<u16>,
}

impl View for DevicePath {
    type V = PathModel;

    open spec fn view(&self) -> PathModel {
        PathModel { wide: self.wide@ }
    }
}

/// What a list of device paths holds.
pub open spec fn path_models(s: Seq<DevicePath>) -> Seq<PathModel> {
    s.map_values(|p: DevicePath| p@)
}

proof fn lemma_remove_first(s: Seq<DevicePath>)
    requires
        s.len() > 0,
    ensures
        path_models(s.remove(0)) == path_models(s).skip(1),
{
    assert(path_models(s.remove(0)) =~= path_models(s).skip(1));
}

/// The paths that a category contributes; none if its enumeration failed.
pub open spec fn found(category: Option<Vec<DevicePath>>) -> Seq<PathModel> {
    match category {
        Some(v) => path_models(v@),
        None => Seq::empty(),
    }
}

/// `s` without the paths that equal the one kept before them.
pub open spec fn deduped(s: Seq<PathModel>) -> Seq<PathModel>
    decreases s.len(),
{
    if s.len() == 0 {
        Seq::empty()
    } else {
        let before = deduped(s.drop_last());
        if before.len() > 0 && before.last() == s.last() {
            before
        } else {
            before.push(s.last())
        }
    }
}

/// The paths of the iRig USB in the capture, render and audio categories.
pub open spec fn all_paths(
    capture: Option<Vec<DevicePath>>,
    render: Option<Vec<DevicePath>>,
    audio: Option<Vec<DevicePath>>,
) -> Seq<PathModel> {
    deduped(found(capture) + found(render) + found(audio))
}

fn append_found(paths: &mut Vec<DevicePath>, category: Option<Vec<DevicePath>>)
    ensures
        path_models(final(paths)@) == path_models(old(paths)@) + found(category),
{
    match category {
        Some(v) => {
            let mut v = v;
            paths.append(&mut v);
        },
        None => {},
    }
    assert(path_models(paths@) =~= path_models(old(paths)@) + found(category));
}

pub(crate) fn same_units(a: &Vec<u16>, b: &Vec<u16>) -> (r: bool)
    ensures
        r == (a@ == b@),
{
    if a.len() != b.len() {
        return false;
    }
    let mut i: usize = 0;
    while i < a.len()
        invariant
            i <= a.len(),
            a.len() == b.len(),
            forall|k: int| 0 <= k < i ==> a@[k] == b@[k],
        decreases a.len() - i,
    {
        if a[i] != b[i] {
            return false;
        }
        i += 1;
    }
    assert(a@ =~= b@);
    true
}

fn dedup(paths: Vec<DevicePath>) -> (r: Vec<DevicePath>)
    ensures
        path_models(r@) == deduped(path_models(paths@)),
{
    let mut rest = paths;
    let mut r: Vec<DevicePath> = Vec::new();
    let n = rest.len();
    let mut i: usize = 0;
    let ghost all = path_models(rest@);
    assert(path_models(r@) =~= deduped(all.take(0)));
    while i < n
        invariant
            i <= n,
            all.len() == n,
            path_models(rest@) == all.skip(i as int),
            path_models(r@) == deduped(all.take(i as int)),
        decreases n - i,
    {
        assert(rest@.len() == path_models(rest@).len());
        proof {
            lemma_remove_first(rest@);
        }
        let p = rest.remove(0);
        let ghost before = r@;
        assert(p@ == all.skip(i as int)[0]);
        assert(all.take(i + 1).drop_last() =~= all.take(i as int));
        assert(all.take(i + 1).last() == p@);
        assert(all.skip(i as int).skip(1) =~= all.skip(i + 1));
        assert(before.len() == path_models(before).len());
        if r.len() == 0 || !same_units(&r[r.len() - 1].wide, &p.wide) {
            let ghost m = p@;
            r.push(p);
            assert(path_models(r@) =~= path_models(before).push(m));
        }
        i += 1;
    }
    assert(all.take(n as int) =~= all);
    r
}

/// All paths of the iRig USB: those of the capture category, then those of the
/// render and of the audio category, without repetitions in a row. A category
/// that could not be enumerated contributes nothing.
pub fn enumerate_irig_device_paths(
    capture: Option<Vec<DevicePath>>,
    render: Option<Vec<DevicePath>>,
    audio: Option<Vec<DevicePath>>,
) -> (r: Vec<DevicePath>)
    ensures
        path_models(r@) == all_paths(capture, render, audio),
{
    let mut paths: Vec<DevicePath> = Vec::new();
    assert(path_models(paths@) =~= Seq::empty());
    append_found(&mut paths, capture);
    append_found(&mut paths, render);
    append_found(&mut paths, audio);
    assert(path_models(paths@) =~= found(capture) + found(render) + found(audio));
    dedup(paths)
}

/// Whether a path belongs to the capture category, from the path in lowercase.
pub fn is_capture_path(lower_path: &str) -> (r: bool)
    ensures
        r == has(lower_path@, "65e8773d"@),
{
    contains(lower_path, "65e8773d")
}

/// The path holds the first field of the capture category's identifier.
pub open spec fn names_capture(path: Seq<u16>) -> bool {
    has(lowercase(decoded(path)), "65e8773d"@)
}

/// The first path of the capture category.
pub open spec fn first_capture(s: Seq<PathModel>) -> Option<PathModel>
    decreases s.len(),
{
    if s.len() == 0 {
        None
    } else if names_capture(s[0].wide) {
        Some(s[0])
    } else {
        first_capture(s.skip(1))
    }
}

/// The first path of the iRig USB that belongs to the capture category. It is
/// opened for direct streaming when the iRig USB has no capture endpoint.
pub fn get_irig_capture_path(
    capture: Option<Vec<DevicePath>>,
    render: Option<Vec<DevicePath>>,
    audio: Option<Vec<DevicePath>>,
) -> (r: Option<DevicePath>)
    ensures
        (match r {
            Some(p) => Some(p@),
            None => None,
        }) == first_capture(all_paths(capture, render, audio)),
{
    let mut paths = enumerate_irig_device_paths(capture, render, audio);
    let n = paths.len();
    let mut i: usize = 0;
    let ghost all = path_models(paths@);
    assert(all.skip(0) =~= all);
    while i < n
        invariant
            i <= n,
            all.len() == n,
            all == all_paths(capture, render, audio),
            path_models(paths@) == all.skip(i as int),
            first_capture(all.skip(i as int)) == first_capture(all),
        decreases n - i,
    {
        assert(paths@.len() == path_models(paths@).len());
        proof {
            lemma_remove_first(paths@);
        }
        let p = paths.remove(0);
        assert(p@ == all.skip(i as int)[0]);
        assert(all.skip(i as int).skip(1) =~= all.skip(i + 1));
        let text = decode(&p.wide, p.wide.len());
        assert(p.wide@.take(p.wide@.len() as int) =~= p.wide@);
        let lower = text.as_str().to_lowercase();
        if is_capture_path(lower.as_str()) {
            return Some(p);
        }
        i += 1;
    }
    assert(all.skip(n as int) =~= Seq::empty());
    None
}

// ---------------------------------------------------------------------------
// What holds of the paths
// ---------------------------------------------------------------------------

/// Only paths that bear the vendor's mark are found, and every one of them is,
/// whatever the product.
pub proof fn law_only_and_all_irig_paths(details: Seq<Vec<u8>>, path: Seq<u16>)
    ensures
        irig_paths(details).contains(path) <==> names_irig(path) && exists|i: int|
            0 <= i < details.len() && detail_path((#[trigger] details[i])@) == path,
    decreases details.len(),
{
    if details.len() > 0 {
        let rest = details.drop_last();
        let last = detail_path(details.last()@);
        let before = irig_paths(rest);
        law_only_and_all_irig_paths(rest, path);
        if names_irig(last) {
            assert(before.push(last).contains(path) <==> before.contains(path) || path == last) by {
                if before.contains(path) {
                    let i = choose|i: int| 0 <= i < before.len() && before[i] == path;
                    assert(before.push(last)[i] == path);
                }
                assert(before.push(last)[before.len() as int] == last);
            }
        }
        if exists|i: int| 0 <= i < rest.len() && detail_path((#[trigger] rest[i])@) == path {
            let i = choose|i: int| 0 <= i < rest.len() && detail_path((#[trigger] rest[i])@) == path;
            assert(detail_path(details[i]@) == path);
        }
        if exists|i: int| 0 <= i < details.len() && detail_path((#[trigger] details[i])@) == path {
            let i = choose|i: int|
                0 <= i < details.len() && detail_path((#[trigger] details[i])@) == path;
            if i < rest.len() {
                assert(rest[i] == details[i]);
            }
        }
        assert(details[details.len() - 1] == details.last());
    }
}

/// No two neighbours among the paths are equal, and nothing is lost or added:
/// exactly the paths that were found are there, and the first stays first.
pub proof fn law_deduped(s: Seq<PathModel>)
    ensures
        forall|i: int|
            0 < i < deduped(s).len() ==> deduped(s)[i - 1].wide != (#[trigger] deduped(s)[i]).wide,
        forall|i: int| 0 <= i < s.len() ==> deduped(s).contains(#[trigger] s[i]),
        forall|j: int| 0 <= j < deduped(s).len() ==> s.contains(#[trigger] deduped(s)[j]),
        s.len() > 0 ==> deduped(s).len() > 0 && deduped(s)[0] == s[0] && deduped(s).last()
            == s.last(),
    decreases s.len(),
{
    if s.len() > 0 {
        let t = s.drop_last();
        let before = deduped(t);
        let after = deduped(s);
        law_deduped(t);
        assert forall|i: int| 0 <= i < s.len() implies after.contains(#[trigger] s[i]) by {
            if i < t.len() {
                assert(before.contains(t[i]));
                let j = choose|j: int| 0 <= j < before.len() && before[j] == t[i];
                assert(after[j] == s[i]);
            } else {
                assert(after[after.len() - 1] == s[i]);
            }
        }
        assert forall|j: int| 0 <= j < after.len() implies s.contains(#[trigger] after[j]) by {
            if j < before.len() {
                assert(t.contains(before[j]));
                let i = choose|i: int| 0 <= i < t.len() && t[i] == before[j];
                assert(s[i] == after[j]);
            } else {
                assert(s[s.len() - 1] == after[j]);
            }
        }
        if t.len() > 0 {
            assert(t[0] == s[0]);
        }
    }
}

/// The capture path is one of the paths found and names the capture category;
/// there is none only where no path does.
pub proof fn law_capture_path_names_capture(s: Seq<PathModel>)
    ensures
        match first_capture(s) {
            Some(p) => s.contains(p) && names_capture(p.wide),
            None => forall|i: int| 0 <= i < s.len() ==> !names_capture((#[trigger] s[i]).wide),
        },
    decreases s.len(),
{
    if s.len() > 0 {
        let rest = s.skip(1);
        law_capture_path_names_capture(rest);
        match first_capture(s) {
            Some(p) => {
                if names_capture(s[0].wide) {
                    assert(s[0] == p);
                } else {
                    let i = choose|i: int| 0 <= i < rest.len() && rest[i] == p;
                    assert(s[i + 1] == p);
                }
            },
            None => {
                assert forall|i: int| 0 <= i < s.len() implies !names_capture(
                    (#[trigger] s[i]).wide,
                ) by {
                    if i > 0 {
                        assert(rest[i - 1] == s[i]);
                    }
                }
            },
        }
    }
}

/// The path in an interface detail is what stands behind the four bytes of its
/// size, low byte first, up to the first zero or to the end.
pub proof fn law_detail_path(detail: Seq<u8>, i: int)
    requires
        detail.len() >= 4,
    ensures
        ({
            let path = detail_path(detail);
            let n = path.len() as int;
            &&& 4 + 2 * n <= detail.len()
            &&& 0 <= i < n ==> path[i] == detail[4 + 2 * i] + 256 * detail[5 + 2 * i] && path[i] != 0
            &&& 4 + 2 * n + 2 <= detail.len() ==> detail[4 + 2 * n] == 0 && detail[5 + 2 * n] == 0
        }),
{
    let u = detail_units(detail);
    lemma_before_nul(u);
    let n = before_nul(u).len() as int;
    if 0 <= i < n {
        assert(before_nul(u)[i] == u[i]);
    }
    if n < u.len() {
        assert(u[n] == 0);
    }
}

proof fn lemma_before_nul(s: Seq<u16>)
    ensures
        before_nul(s).len() <= s.len(),
        forall|i: int|
            0 <= i < before_nul(s).len() ==> #[trigger] before_nul(s)[i] == s[i] && s[i] != 0,
        before_nul(s).len() < s.len() ==> s[before_nul(s).len() as int] == 0,
    decreases s.len(),
{
    if s.len() > 0 && s[0] != 0 {
        let t = s.skip(1);
        lemma_before_nul(t);
        let r = before_nul(s);
        assert forall|i: int| 0 <= i < r.len() implies #[trigger] r[i] == s[i] && s[i] != 0 by {
            if i > 0 {
                assert(before_nul(t)[i - 1] == t[i - 1]);
                assert(t[i - 1] == s[i]);
            }
        }
    }
}

/// A path belongs to one of the vendor's interfaces exactly where its text, in
/// uppercase, holds the vendor's mark somewhere, whatever stands around it.
pub proof fn law_known_by_the_vendor(path: Seq<u16>)
    ensures
        names_irig(path) <==> exists|i: int|
            0 <= i <= uppercase(decoded(path)).len() - uppercase("VID_1963"@).len()
                && #[trigger] uppercase(decoded(path)).subrange(
                i,
                i + uppercase("VID_1963"@).len(),
            ) == uppercase("VID_1963"@),
{
    let mark = uppercase("VID_1963"@);
    law_search(Seq::empty(), mark, Seq::empty(), uppercase(decoded(path)));
}

/// The paths of a category are found one by one, in their order: those of a list
/// and of another behind it are those of both together.
pub proof fn law_paths_in_order(a: Seq<Vec<u8>>, b: Seq<Vec<u8>>, one: Vec<u8>)
    ensures
        irig_paths(a + b) == irig_paths(a) + irig_paths(b),
        irig_paths(Seq::<Vec<u8>>::empty()).len() == 0,
        names_irig(detail_path(one@)) ==> irig_paths(seq![one]) == seq![detail_path(one@)],
        !names_irig(detail_path(one@)) ==> irig_paths(seq![one]).len() == 0,
    decreases b.len(),
{
    assert(seq![one].drop_last() =~= Seq::empty());
    reveal_with_fuel(irig_paths, 2);
    assert(names_irig(detail_path(one@)) ==> irig_paths(seq![one]) =~= seq![detail_path(one@)]);
    if b.len() > 0 {
        law_paths_in_order(a, b.drop_last(), one);
        assert((a + b).drop_last() =~= a + b.drop_last());
        assert((a + b).last() == b.last());
        assert(irig_paths(a + b) =~= irig_paths(a) + irig_paths(b));
    } else {
        assert(a + b =~= a);
        assert(irig_paths(a) + irig_paths(b) =~= irig_paths(a));
    }
}

/// One more path is dropped if it equals the last one, and is kept at the end
/// otherwise.
pub proof fn law_deduped_one_more(s: Seq<PathModel>, p: PathModel)
    ensures
        s.len() == 0 ==> deduped(s.push(p)) == seq![p],
        s.len() > 0 && s.last().wide == p.wide ==> deduped(s.push(p)) == deduped(s),
        s.len() > 0 && s.last().wide != p.wide ==> deduped(s.push(p)) == deduped(s).push(p),
        deduped(Seq::<PathModel>::empty()).len() == 0,
{
    law_deduped(s);
    assert(s.push(p).drop_last() =~= s);
    if s.len() == 0 {
        assert(deduped(s) =~= Seq::empty());
        assert(deduped(s.push(p)) =~= seq![p]);
    }
}

/// The categories go in the order capture, render, audio, and one that could not
/// be enumerated counts as one without paths: where no two neighbours of the three
/// lists in a row are equal, they are what is found.
pub proof fn law_order_of_categories(
    capture: Vec<DevicePath>,
    render: Vec<DevicePath>,
    audio: Vec<DevicePath>,
)
    requires
        ({
            let all = path_models(capture@ + render@ + audio@);
            forall|i: int| 0 < i < all.len() ==> all[i - 1].wide != (#[trigger] all[i]).wide
        }),
    ensures
        all_paths(Some(capture), Some(render), Some(audio)) == path_models(
            capture@ + render@ + audio@,
        ),
        capture.len() == 0 ==> all_paths(None, Some(render), Some(audio)) == path_models(
            render@ + audio@,
        ),
        render.len() == 0 ==> all_paths(Some(capture), None, Some(audio)) == path_models(
            capture@ + audio@,
        ),
        audio.len() == 0 ==> all_paths(Some(capture), Some(render), None) == path_models(
            capture@ + render@,
        ),
{
    let all = path_models(capture@ + render@ + audio@);
    lemma_nothing_to_drop(all);
    let c = path_models(capture@);
    let r = path_models(render@);
    let a = path_models(audio@);
    assert(c + r + a =~= all);
    if capture.len() == 0 {
        assert(Seq::<PathModel>::empty() + r + a =~= all);
        assert(path_models(render@ + audio@) =~= all);
    }
    if render.len() == 0 {
        assert(c + Seq::<PathModel>::empty() + a =~= all);
        assert(path_models(capture@ + audio@) =~= all);
    }
    if audio.len() == 0 {
        assert(c + r + Seq::<PathModel>::empty() =~= all);
        assert(path_models(capture@ + render@) =~= all);
    }
}

proof fn lemma_nothing_to_drop(s: Seq<PathModel>)
    requires
        forall|i: int| 0 < i < s.len() ==> s[i - 1].wide != (#[trigger] s[i]).wide,
    ensures
        deduped(s) == s,
    decreases s.len(),
{
    if s.len() > 0 {
        let t = s.drop_last();
        assert forall|i: int| 0 < i < t.len() implies t[i - 1].wide != (#[trigger] t[i]).wide by {
            assert(s[i - 1].wide != s[i].wide);
        }
        lemma_nothing_to_drop(t);
        if t.len() > 0 {
            assert(s[s.len() - 2].wide != s[s.len() - 1].wide);
        }
        assert(t.push(s.last()) =~= s);
    } else {
        assert(deduped(s) =~= s);
    }
}

/// The capture path is the first whose text, in lowercase, holds the first field
/// of the capture category's identifier.
pub proof fn law_first_capture_path(s: Seq<PathModel>, i: int)
    requires
        0 <= i < s.len(),
        has(lowercase(decoded(s[i].wide)), "65e8773d"@),
        forall|j: int|
            0 <= j < i ==> !(has(lowercase(decoded((#[trigger] s[j]).wide)), "65e8773d"@)),
    ensures
        first_capture(s) == Some(s[i]),
    decreases s.len(),
{
    if i > 0 {
        assert(!(has(lowercase(decoded(s[0].wide)), "65e8773d"@)));
        let t = s.skip(1);
        assert(t[i - 1] == s[i]);
        assert forall|j: int| 0 <= j < i - 1 implies !(has(
            lowercase(decoded((#[trigger] t[j]).wide)),
            "65e8773d"@,
        )) by {
            assert(t[j] == s[j + 1]);
        }
        law_first_capture_path(t, i - 1);
    }
}

/// The categories share all but the number in front and, for the general one, the
/// second field and one byte behind it: capture and render are neighbours.
pub proof fn law_identifiers_of_categories(c: Category)
    ensures
        Category::Capture.guid_spec().data1 == 0x65E8773D,
        Category::Render.guid_spec().data1 == Category::Capture.guid_spec().data1 + 1,
        Category::Audio.guid_spec().data1 == 0x6994AD04,
        c.guid_spec().data2 == (if c == Category::Audio {
            0x93EFint
        } else {
            0x8F56int
        }),
        c.guid_spec().data3 == 0x11D0,
        c.guid_spec().data4 == seq![
            0xA3u8,
            if c == Category::Audio {
                0xCCu8
            } else {
                0xB9u8
            },
            0x00,
            0xA0,
            0xC9,
            0x22,
            0x31,
            0x96,
        ],
{
}

/// A list of paths is what its entries say.
pub proof fn law_views_of_paths(s: Seq<DevicePath>, i: int)
    ensures
        path_models(s).len() == s.len(),
        0 <= i < s.len() ==> path_models(s)[i].wide == s[i].wide@,
{
}

// ---------------------------------------------------------------------------
// Format
// ---------------------------------------------------------------------------

/// A PCM format that is asked of a pin.
#[derive(Clone, Copy, Debug, PartialEq, Eq, Structural)]
pub struct PinFormat {
    pub sample_rate: u32,
    /// How many bits of a sample count.
    pub valid_bits: u16,
    /// How many bits a sample takes.
    pub container_bits: u16,
    pub channels: u16,
    /// How many bytes a frame takes.
    pub block_align: u16,
    /// How many bytes a second takes.
    pub avg_bytes: u32,
}

/// The format that is negotiated: stereo at this rate, 24 bits packed in 32-bit
/// words.
pub open spec fn wanted_format(sample_rate: u32) -> PinFormat {
    PinFormat {
        sample_rate,
        valid_bits: 24,
        container_bits: 32,
        channels: 2,
        block_align: 8,
        avg_bytes: (8 * sample_rate) as u32,
    }
}

/// The format that is asked of an open pin; see [`wanted_format`].
pub fn format_request(sample_rate: u32) -> (r: PinFormat)
    requires
        8 * sample_rate <= u32::MAX,
    ensures
        r == wanted_format(sample_rate),
{
    PinFormat {
        sample_rate,
        valid_bits: 24,
        container_bits: 32,
        channels: 2,
        block_align: 8,
        avg_bytes: 8 * sample_rate,
    }
}

/// The pin with the negotiated format at this rate.
pub open spec fn negotiated_pin(pin: PinModel, sample_rate: u32) -> PinModel {
    PinModel { sample_rate, bits: 24, channels: 2, block_align: 8, ..pin }
}

/// Negotiates the PCM format on an open pin: takes note of what came of asking it
/// for the format of [`format_request`]. A pin that took the format has it from
/// then on; one that did not stays as it is.
pub fn negotiate_format(pin: &mut KsPin, sample_rate: u32, outcome: Result<(), i32>) -> (r: Result<
    (),
    i32,
>)
    ensures
        r == outcome,
        final(pin)@ == (if outcome is Ok {
            negotiated_pin(old(pin)@, sample_rate)
        } else {
            old(pin)@
        }),
{
    if outcome.is_ok() {
        pin.sample_rate = sample_rate;
        pin.bits = 24;
        pin.channels = 2;
        pin.block_align = 8;
    }
    outcome
}

/// What a pin has after a successful negotiation is what was asked of it, and the
/// format fits together: a frame has one word for each channel, and a second so
/// many frames as the rate says.
pub proof fn law_negotiated_as_asked(pin: PinModel, sample_rate: u32)
    requires
        8 * sample_rate <= u32::MAX,
    ensures
        ({
            let f = wanted_format(sample_rate);
            let p = negotiated_pin(pin, sample_rate);
            &&& p.sample_rate == f.sample_rate
            &&& p.bits == f.valid_bits
            &&& p.channels == f.channels
            &&& p.block_align == f.block_align
            &&& f.sample_rate == sample_rate
            &&& f.valid_bits == 24 && f.container_bits == 32 && f.channels == 2
            &&& f.block_align * 8 == f.channels * f.container_bits
            &&& f.avg_bytes == f.sample_rate * f.block_align
            &&& p.handle == pin.handle && p.filter_handle == pin.filter_handle && p.path == pin.path
            &&& p.direction == pin.direction
        }),
{
}

} // verus!
