//! Hardware encoders found in the output of `ffmpeg -encoders`.
use vstd::prelude::*;
use crate::text::{append, ends_with, has_suffix, owned, split_words, views, words};

verus! {

/// What the encoder listing and `/dev/dri` say about hardware acceleration.
#[derive(Debug, Clone)]
pub struct HardwareAccelInfo {
    pub ffmpeg_vaapi_support: bool,
    pub vaapi_available: bool,
    pub vaapi_encoders: Vec<String>,
    pub vaapi_devices: Vec<String>,
    pub nvenc_available: bool,
    pub nvenc_encoders: Vec<String>,
    pub qsv_available: bool,
    pub qsv_encoders: Vec<String>,
    pub rkmpp_available: bool,
    pub rkmpp_encoders: Vec<String>,
    pub all_encoders: Vec<String>,
}

/// Nothing found.
pub open spec fn is_empty_info(i: HardwareAccelInfo) -> bool {
    &&& !i.ffmpeg_vaapi_support
    &&& !i.vaapi_available
    &&& i.vaapi_encoders@.len() == 0
    &&& i.vaapi_devices@.len() == 0
    &&& !i.nvenc_available
    &&& i.nvenc_encoders@.len() == 0
    &&& !i.qsv_available
    &&& i.qsv_encoders@.len() == 0
    &&& !i.rkmpp_available
    &&& i.rkmpp_encoders@.len() == 0
    &&& i.all_encoders@.len() == 0
}

impl Default for HardwareAccelInfo {
    fn default() -> (r: Self)
        ensures
            is_empty_info(r),
    {
        HardwareAccelInfo {
            ffmpeg_vaapi_support: false,
            vaapi_available: false,
            vaapi_encoders: Vec::new(),
            vaapi_devices: Vec::new(),
            nvenc_available: false,
            nvenc_encoders: Vec::new(),
            qsv_available: false,
            qsv_encoders: Vec::new(),
            rkmpp_available: false,
            rkmpp_encoders: Vec::new(),
            all_encoders: Vec::new(),
        }
    }
}

/// The encoder names of a listing: the second word of each line that has
/// at least two words.
pub open spec fn encoder_names(lines: Seq<Seq<char>>) -> Seq<Seq<char>>
    decreases lines.len(),
{
    if lines.len() == 0 {
        Seq::empty()
    } else {
        let prev = encoder_names(lines.drop_last());
        let w = words(lines.last());
        if w.len() >= 2 {
            prev.push(w[1])
        } else {
            prev
        }
    }
}

/// The names ending in `suffix`, in order.
pub open spec fn with_suffix(names: Seq<Seq<char>>, suffix: Seq<char>) -> Seq<Seq<char>> {
    names.filter(|n: Seq<char>| ends_with(n, suffix))
}

/// The encoder names of the listing `lines`.
pub fn encoder_names_of(lines: &Vec<String>) -> (r: Vec<String>)
    ensures
        views(r@) == encoder_names(views(lines@)),
{
    let mut out: Vec<String> = Vec::new();
    let mut i: usize = 0;
    while i < lines.len()
        invariant
            i <= lines@.len(),
            views(out@) == encoder_names(views(lines@).take(i as int)),
        decreases lines@.len() - i,
    {
        let ghost before = out@;
        let w = split_words(lines[i].as_str());
        proof {
            let t = views(lines@).take(i + 1);
            assert(t.drop_last() =~= views(lines@).take(i as int));
            assert(t.last() == lines@[i as int]@);
        }
        if w.len() >= 2 {
            out.push(w[1].clone());
            proof {
                assert(views(w@)[1] == w@[1]@);
                assert(views(out@) =~= views(before).push(w@[1]@));
            }
        }
        i = i + 1;
    }
    assert(views(lines@).take(lines@.len() as int) =~= views(lines@));
    out
}

/// The names of `names` ending in `suffix`, in order.
pub fn names_with_suffix(names: &Vec<String>, suffix: &str) -> (r: Vec<String>)
    ensures
        views(r@) == with_suffix(views(names@), suffix@),
{
    let mut out: Vec<String> = Vec::new();
    let mut i: usize = 0;
    while i < names.len()
        invariant
            i <= names@.len(),
            views(out@) == with_suffix(views(names@).take(i as int), suffix@),
        decreases names@.len() - i,
    {
        let ghost before = out@;
        let ghost t = views(names@).take(i + 1);
        proof {
            assert(t.drop_last() =~= views(names@).take(i as int));
            assert(t.last() == names@[i as int]@);
            assert(t.len() > 0);
            reveal(Seq::filter);
            assert(with_suffix(t, suffix@) == if ends_with(t.last(), suffix@) {
                with_suffix(t.drop_last(), suffix@).push(t.last())
            } else {
                with_suffix(t.drop_last(), suffix@)
            });
        }
        if has_suffix(names[i].as_str(), suffix) {
            out.push(names[i].clone());
            proof {
                assert(views(out@) =~= views(before).push(names@[i as int]@));
            }
        }
        i = i + 1;
    }
    assert(views(names@).take(names@.len() as int) =~= views(names@));
    out
}

/// The hardware picture from an `ffmpeg -encoders` listing and the entry
/// names of `/dev/dri` (`None` where that directory is missing or cannot
/// be read): the encoders of each family by their suffix, and VAAPI devices
/// as `/dev/dri/{name}`. A family is available when it has an encoder;
/// VAAPI when it has a device.
pub fn hardware_info_from(listing: Vec<String>, dri_entries: Option<Vec<String>>) -> (r: HardwareAccelInfo)
    ensures
        r.all_encoders@ == listing@,
        views(r.vaapi_encoders@) == with_suffix(encoder_names(views(listing@)), "_vaapi"@),
        views(r.nvenc_encoders@) == with_suffix(encoder_names(views(listing@)), "_nvenc"@),
        views(r.qsv_encoders@) == with_suffix(encoder_names(views(listing@)), "_qsv"@),
        views(r.rkmpp_encoders@) == with_suffix(encoder_names(views(listing@)), "_rkmpp"@),
        r.ffmpeg_vaapi_support == (r.vaapi_encoders@.len() > 0),
        r.nvenc_available == (r.nvenc_encoders@.len() > 0),
        r.qsv_available == (r.qsv_encoders@.len() > 0),
        r.rkmpp_available == (r.rkmpp_encoders@.len() > 0),
        match dri_entries {
            Some(names) => views(r.vaapi_devices@) == views(names@).map_values(|n: Seq<char>| "/dev/dri/"@ + n)
                && r.vaapi_available == (names@.len() > 0),
            None => r.vaapi_devices@.len() == 0 && !r.vaapi_available,
        },
{
    let names = encoder_names_of(&listing);
    let vaapi = names_with_suffix(&names, "_vaapi");
    let nvenc = names_with_suffix(&names, "_nvenc");
    let qsv = names_with_suffix(&names, "_qsv");
    let rkmpp = names_with_suffix(&names, "_rkmpp");
    let mut devices: Vec<String> = Vec::new();
    let mut vaapi_available = false;
    match &dri_entries {
        Some(entries) => {
            let mut i: usize = 0;
            while i < entries.len()
                invariant
                    i <= entries@.len(),
                    views(devices@) == views(entries@).take(i as int).map_values(|n: Seq<char>| "/dev/dri/"@ + n),
                decreases entries@.len() - i,
            {
                let ghost before = devices@;
                let mut d = owned("/dev/dri/");
                append(&mut d, entries[i].as_str());
                devices.push(d);
                proof {
                    assert(views(devices@) =~= views(before).push("/dev/dri/"@ + entries@[i as int]@));
                    assert(views(entries@).take(i + 1) =~= views(entries@).take(i as int).push(entries@[i as int]@));
                    assert(views(entries@).take(i + 1).map_values(|n: Seq<char>| "/dev/dri/"@ + n)
                        =~= views(entries@).take(i as int).map_values(|n: Seq<char>| "/dev/dri/"@ + n).push(
                        "/dev/dri/"@ + entries@[i as int]@,
                    ));
                }
                i = i + 1;
            }
            assert(views(entries@).take(entries@.len() as int) =~= views(entries@));
            vaapi_available = devices.len() > 0;
        },
        None => {},
    }
    let ffmpeg_vaapi_support = vaapi.len() > 0;
    let nvenc_available = nvenc.len() > 0;
    let qsv_available = qsv.len() > 0;
    let rkmpp_available = rkmpp.len() > 0;
    HardwareAccelInfo {
        ffmpeg_vaapi_support,
        vaapi_available,
        vaapi_encoders: vaapi,
        vaapi_devices: devices,
        nvenc_available,
        nvenc_encoders: nvenc,
        qsv_available,
        qsv_encoders: qsv,
        rkmpp_available,
        rkmpp_encoders: rkmpp,
        all_encoders: listing,
    }
}

} // verus!
