use vstd::prelude::*;

verus! {

/// The hitsound additions of a fruit.
#[derive(Debug, Clone, Copy)]
pub struct Additions {
    pub whistle: bool,
    pub finish: bool,
    pub clap: bool,
}

/// The set of hitsounds in use.
#[derive(Debug, Clone)]
pub enum HitSoundKind {
    Normal,
    Soft,
    Drum,
    Custom(String),
}

/// The folder, under a chart's `HitSounds`, that holds the sounds of `kind`.
pub open spec fn folder_name(kind: HitSoundKind) -> Seq<char> {
    match kind {
        HitSoundKind::Normal => "Normal"@,
        HitSoundKind::Soft => "Soft"@,
        HitSoundKind::Drum => "Drum"@,
        HitSoundKind::Custom(s) => s@,
    }
}

/// The folder that holds the sounds of `kind`: its name, or the custom set's own name.
pub fn hitsound_folder(kind: &HitSoundKind) -> (r: String)
    ensures
        r@ == folder_name(*kind),
{
    match kind {
        HitSoundKind::Normal => "Normal".to_owned(),
        HitSoundKind::Soft => "Soft".to_owned(),
        HitSoundKind::Drum => "Drum".to_owned(),
        HitSoundKind::Custom(s) => s.clone(),
    }
}

/// The sounds a caught fruit plays, in order: the hit, then the whistle, the finish and
/// the clap as far as its additions ask for them.
pub open spec fn hit_sound_names(a: Additions) -> Seq<Seq<char>> {
    seq!["Hit"@] + (if a.whistle {
        seq!["Whistle"@]
    } else {
        Seq::empty()
    }) + (if a.finish {
        seq!["Finish"@]
    } else {
        Seq::empty()
    }) + (if a.clap {
        seq!["Clap"@]
    } else {
        Seq::empty()
    })
}

/// The file of the sound `name` from the folder `folder` of the chart `chart`.
pub open spec fn hit_sound_path(chart: Seq<char>, folder: Seq<char>, name: Seq<char>) -> Seq<char> {
    "resources/"@ + chart + "/HitSounds/"@ + folder + "/"@ + name + ".wav"@
}

fn push_path(out: &mut Vec<String>, chart_name: &str, folder: &str, name: &str)
    ensures
        final(out)@.len() == old(out)@.len() + 1,
        forall|i: int| 0 <= i < old(out)@.len() ==> final(out)@[i] == old(out)@[i],
        final(out)@[old(out)@.len() as int]@ == hit_sound_path(chart_name@, folder@, name@),
{
    let mut p = "resources/".to_owned();
    p.append(chart_name);
    p.append("/HitSounds/");
    p.append(folder);
    p.append("/");
    p.append(name);
    p.append(".wav");
    out.push(p);
}

/// The files of the sounds a caught fruit with `additions` plays, in the chart
/// `chart_name` under the hitsound set `kind`.
pub fn hit_sound_paths(chart_name: &str, kind: &HitSoundKind, additions: Additions) -> (r: Vec<String>)
    ensures
        r@.len() == hit_sound_names(additions).len(),
        forall|i: int|
            0 <= i < r@.len() ==> (#[trigger] r@[i])@ == hit_sound_path(
                chart_name@,
                folder_name(*kind),
                hit_sound_names(additions)[i],
            ),
{
    let folder = hitsound_folder(kind);
    let ghost names = hit_sound_names(additions);
    let mut out: Vec<String> = Vec::new();
    let ghost mut expect: Seq<Seq<char>> = seq!["Hit"@];
    push_path(&mut out, chart_name, folder.as_str(), "Hit");
    if additions.whistle {
        push_path(&mut out, chart_name, folder.as_str(), "Whistle");
        proof {
            expect = expect.push("Whistle"@);
        }
    }
    if additions.finish {
        push_path(&mut out, chart_name, folder.as_str(), "Finish");
        proof {
            expect = expect.push("Finish"@);
        }
    }
    if additions.clap {
        push_path(&mut out, chart_name, folder.as_str(), "Clap");
        proof {
            expect = expect.push("Clap"@);
        }
    }
    assert(expect =~= names);
    out
}

} // verus!
