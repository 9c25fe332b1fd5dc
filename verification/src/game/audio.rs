use vstd::prelude::*;

verus! {

/// A sound effect: one or more recordings, one of which is played each time.
#[derive(Debug)]
pub struct SoundEffect {
    sound_effects: &'static [&'static [u8]],
}

impl SoundEffect {
    /// A sound effect always has a recording to play.
    #[verifier::type_invariant]
    spec fn has_recording(self) -> bool {
        self.sound_effects@.len() > 0
    }

    pub fn new(sound_effects: &'static [&'static [u8]]) -> (res: Self)
        requires
            sound_effects@.len() > 0,
        ensures
            res.sound_effects_spec() == sound_effects,
    {
        Self { sound_effects }
    }

    pub closed spec fn sound_effects_spec(&self) -> &'static [&'static [u8]] {
        self.sound_effects
    }

    /// The recordings, of which there is at least one.
    pub fn sound_effects(&self) -> (res: &'static [&'static [u8]])
        ensures
            res == self.sound_effects_spec(),
            res@.len() >= 1,
    {
        proof {
            use_type_invariant(self);
        }
        self.sound_effects
    }
}

/// The id of a background music track; never 0.
#[derive(Debug, Clone, Copy, PartialEq, Eq, Structural, PartialOrd, Ord, Hash)]
pub struct BackgroundMusicId {
    id: usize,
}

impl View for BackgroundMusicId {
    type V = usize;

    closed spec fn view(&self) -> usize {
        self.id
    }
}

impl BackgroundMusicId {
    #[verifier::type_invariant]
    spec fn id_not_zero(self) -> bool {
        self.id != 0
    }

    pub fn new(id: usize) -> (res: BackgroundMusicId)
        requires
            id != 0,
        ensures
            res@ == id,
    {
        BackgroundMusicId { id }
    }

    pub fn id(self) -> (res: usize)
        ensures
            res == self@,
            res != 0,
    {
        proof {
            use_type_invariant(&self);
        }
        self.id
    }
}

/// Two ids with the same number are the same id.
pub proof fn lemma_background_music_id_view_injective(a: BackgroundMusicId, b: BackgroundMusicId)
    ensures
        a@ == b@ ==> a == b,
{
}

/// A background music track: an optional intro played once and a main part played in a loop.
#[derive(Debug)]
pub struct BackgroundMusic {
    id: BackgroundMusicId,
    display_name: &'static str,
    creator: &'static str,
    intro_audio_data: Option<&'static [u8]>,
    main_loop_audio_data: &'static [u8],
}

impl BackgroundMusic {
    pub fn new(
        id: BackgroundMusicId,
        display_name: &'static str,
        creator: &'static str,
        intro_audio_data: Option<&'static [u8]>,
        main_loop_audio_data: &'static [u8],
    ) -> (res: Self)
        ensures
            res.spec_id() == id,
            res.spec_display_name()@ == display_name@,
            res.spec_creator()@ == creator@,
            res.spec_intro_audio_data() == intro_audio_data,
            res.spec_main_loop_audio_data() == main_loop_audio_data,
    {
        Self { id, display_name, creator, intro_audio_data, main_loop_audio_data }
    }

    pub closed spec fn spec_id(&self) -> BackgroundMusicId {
        self.id
    }

    pub closed spec fn spec_display_name(&self) -> &'static str {
        self.display_name
    }

    pub closed spec fn spec_creator(&self) -> &'static str {
        self.creator
    }

    pub closed spec fn spec_intro_audio_data(&self) -> Option<&'static [u8]> {
        self.intro_audio_data
    }

    pub closed spec fn spec_main_loop_audio_data(&self) -> &'static [u8] {
        self.main_loop_audio_data
    }

    pub fn id(&self) -> (res: BackgroundMusicId)
        ensures
            res == self.spec_id(),
    {
        self.id
    }

    pub fn display_name(&self) -> (res: &'static str)
        ensures
            res == self.spec_display_name(),
    {
        self.display_name
    }

    pub fn creator(&self) -> (res: &'static str)
        ensures
            res == self.spec_creator(),
    {
        self.creator
    }

    pub fn intro_audio_data(&self) -> (res: Option<&'static [u8]>)
        ensures
            res == self.spec_intro_audio_data(),
    {
        self.intro_audio_data
    }

    pub fn main_loop_audio_data(&self) -> (res: &'static [u8])
        ensures
            res == self.spec_main_loop_audio_data(),
    {
        self.main_loop_audio_data
    }
}

/// The background music track "Fields of Ice" (id 1) with its audio data.
pub fn background_music_fields_of_ice(intro_audio_data: Option<&'static [u8]>, main_loop_audio_data: &'static [u8]) -> (res: BackgroundMusic)
    ensures
        res.spec_id()@ == 1,
        res.spec_display_name()@ == "Fields of Ice"@,
        res.spec_creator()@ == "Jonathan So"@,
        res.spec_intro_audio_data() == intro_audio_data,
        res.spec_main_loop_audio_data() == main_loop_audio_data,
{
    BackgroundMusic::new(BackgroundMusicId::new(1), "Fields of Ice", "Jonathan So", intro_audio_data, main_loop_audio_data)
}

/// The background music tracks the game knows.
#[derive(Debug)]
pub struct BackgroundMusicTracks<const N: usize> {
    tracks: [&'static BackgroundMusic; N],
}

impl<const N: usize> BackgroundMusicTracks<N> {
    pub fn new(tracks: [&'static BackgroundMusic; N]) -> (res: Self)
        ensures
            res@ == tracks@,
    {
        BackgroundMusicTracks { tracks }
    }

    /// The ids of the tracks, in order.
    pub open spec fn ids(&self) -> Seq<BackgroundMusicId> {
        self@.map_values(|t: &'static BackgroundMusic| t.spec_id())
    }

    /// The id of the first track whose id has the number `id`, if there is one.
    pub fn check_id(&self, id: usize) -> (res: Option<BackgroundMusicId>)
        ensures
            match res {
                Some(i) => i@ == id && self.ids().contains(i),
                None => forall|k: int| 0 <= k < self@.len() ==> (#[trigger] self@[k]).spec_id()@ != id,
            },
    {
        let mut k: usize = 0;
        while k < N
            invariant
                k <= N,
                self@.len() == N,
                forall|j: int| 0 <= j < k ==> (#[trigger] self@[j]).spec_id()@ != id,
            decreases N - k,
        {
            let track = self.tracks[k];
            if track.id.id() == id {
                assert(self.ids()[k as int] == track.spec_id());
                return Some(track.id);
            }
            k += 1;
        }
        None
    }

    /// The first track with id `id`; there must be one.
    pub fn get_track_by_id(&self, id: BackgroundMusicId) -> (res: &BackgroundMusic)
        requires
            self.ids().contains(id),
        ensures
            res.spec_id() == id,
            exists|k: int| 0 <= k < self@.len() && self@[k] == res,
    {
        let mut k: usize = 0;
        while k < N
            invariant
                k <= N,
                self@.len() == N,
                self.ids().contains(id),
                forall|j: int| 0 <= j < k ==> (#[trigger] self@[j]).spec_id() != id,
            decreases N - k,
        {
            let track = self.tracks[k];
            if track.id == id {
                return track;
            }
            k += 1;
        }
        proof {
            let j = choose|j: int| 0 <= j < self.ids().len() && self.ids()[j] == id;
            assert(self@[j].spec_id() == id);
        }
        self.tracks[0]
    }

    pub fn tracks(&self) -> (res: &[&'static BackgroundMusic])
        ensures
            res@ == self@,
    {
        self.tracks.as_slice()
    }
}

impl<const N: usize> View for BackgroundMusicTracks<N> {
    type V = Seq<&'static BackgroundMusic>;

    closed spec fn view(&self) -> Seq<&'static BackgroundMusic> {
        self.tracks@
    }
}

} // verus!
