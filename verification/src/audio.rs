//! Sounds of the library: wave and mp3 files of the assets directory become
//! sounds of the exported file, exported under their file names.
use vstd::prelude::*;
use crate::text::{ends_with, has_suffix};
use crate::export::{
    BuilderView, CharacterId, ExportError, ExportTag, ExportTagView, SoundError, SoundFormat,
    SwfBuilder, tags_view,
};

verus! {

/// A file of the assets directory: its name, its bytes, and, for an mp3
/// file, what the mp3 decoder read from the bytes (or its message). The
/// decoder can panic on malformed frames, so it runs outside the library,
/// which takes its result here; for other files the field is not read.
pub struct SoundAsset {
    pub file_name: String,
    pub data: Vec<u8>,
    pub mp3: Result<Mp3Info, String>,
}

pub struct SoundAssetView {
    pub file_name: String,
    pub data: Seq<u8>,
    pub mp3: Result<Mp3Info, Seq<char>>,
}

pub open spec fn mp3_result_view(r: Result<Mp3Info, String>) -> Result<Mp3Info, Seq<char>> {
    match r {
        Ok(i) => Ok(i),
        Err(m) => Err(m@),
    }
}

impl View for SoundAsset {
    type V = SoundAssetView;

    open spec fn view(&self) -> SoundAssetView {
        SoundAssetView { file_name: self.file_name, data: self.data@, mp3: mp3_result_view(self.mp3) }
    }
}

pub open spec fn assets_view(a: Seq<SoundAsset>) -> Seq<SoundAssetView> {
    a.map_values(|x: SoundAsset| x@)
}

/// What the header of a wave file says, and the bytes after it.
pub struct WavInfo {
    pub channels: u16,
    pub sample_rate: u32,
    pub bits_per_sample: u16,
    /// in samples per channel
    pub duration: u32,
    pub data: Vec<u8>,
}

pub struct WavInfoView {
    pub channels: u16,
    pub sample_rate: u32,
    pub bits_per_sample: u16,
    pub duration: u32,
    pub data: Seq<u8>,
}

impl View for WavInfo {
    type V = WavInfoView;

    open spec fn view(&self) -> WavInfoView {
        WavInfoView {
            channels: self.channels,
            sample_rate: self.sample_rate,
            bits_per_sample: self.bits_per_sample,
            duration: self.duration,
            data: self.data@,
        }
    }
}

/// What the first frame of an mp3 stream says, and how many samples the
/// whole stream decodes to.
#[derive(Clone, Copy)]
pub struct Mp3Info {
    pub channels: usize,
    pub sample_rate: u32,
    pub num_samples: usize,
}

/// What `hound` reads from the bytes of a wave file: the header and the
/// bytes after it, or the message of its error.
pub uninterp spec fn wav_decoded(bytes: Seq<u8>) -> Result<WavInfoView, Seq<char>>;

/// Reads a wave file's header with `hound::WavReader::new`; the data is what
/// follows the header. Claimed: the result is `wav_decoded` of the bytes.
#[verifier::external_body]
fn read_wav(bytes: &Vec<u8>) -> (r: Result<WavInfo, String>)
    ensures
        r matches Ok(i) ==> wav_decoded(bytes@) is Ok && wav_decoded(bytes@)->Ok_0 == i@,
        r matches Err(m) ==> wav_decoded(bytes@) is Err && wav_decoded(bytes@)->Err_0 == m@,
{
    match hound::WavReader::new(bytes.as_slice()) {
        Ok(reader) => {
            let spec = reader.spec();
            let duration = reader.duration();
            let (channels, sample_rate, bits_per_sample) = (spec.channels, spec.sample_rate, spec.bits_per_sample);
            Ok(WavInfo { channels, sample_rate, bits_per_sample, duration, data: reader.into_inner().to_vec() })
        },
        Err(e) => Err(e.to_string()),
    }
}

/// Why a sound cannot be used, with the messages as text.
pub enum SoundErrorView {
    Channels(usize),
    BitsPerSample(u16),
    WaveSampleRate(u32),
    Mp3SampleRate(u32),
    Mp3Decode(Seq<char>),
    WaveDecode(Seq<char>),
}

impl View for SoundError {
    type V = SoundErrorView;

    open spec fn view(&self) -> SoundErrorView {
        match self {
            SoundError::Channels(c) => SoundErrorView::Channels(*c),
            SoundError::BitsPerSample(b) => SoundErrorView::BitsPerSample(*b),
            SoundError::WaveSampleRate(r) => SoundErrorView::WaveSampleRate(*r),
            SoundError::Mp3SampleRate(r) => SoundErrorView::Mp3SampleRate(*r),
            SoundError::Mp3Decode(m) => SoundErrorView::Mp3Decode(m@),
            SoundError::WaveDecode(m) => SoundErrorView::WaveDecode(m@),
        }
    }
}

/// A sound as the exported file holds it.
pub struct SoundView {
    pub format: SoundFormat,
    pub num_samples: u32,
    pub data: Seq<u8>,
}

pub open spec fn wave_rate_supported(rate: u32) -> bool {
    rate == 5512 || rate == 11025 || rate == 22050 || rate == 44100
}

pub open spec fn mp3_rate_supported(rate: u32) -> bool {
    rate == 11025 || rate == 22050 || rate == 44100
}

/// The sound of a wave file: uncompressed, its samples as they are.
pub open spec fn wav_sound(bytes: Seq<u8>) -> Result<SoundView, SoundErrorView> {
    match wav_decoded(bytes) {
        Err(m) => Err(SoundErrorView::WaveDecode(m)),
        Ok(i) => if !(i.channels == 1 || i.channels == 2) {
            Err(SoundErrorView::Channels(i.channels as usize))
        } else if !(i.bits_per_sample == 8 || i.bits_per_sample == 16) {
            Err(SoundErrorView::BitsPerSample(i.bits_per_sample))
        } else if !wave_rate_supported(i.sample_rate) {
            Err(SoundErrorView::WaveSampleRate(i.sample_rate))
        } else {
            Ok(
                SoundView {
                    format: SoundFormat {
                        mp3: false,
                        sample_rate: i.sample_rate as u16,
                        is_stereo: i.channels == 2,
                        is_16_bit: i.bits_per_sample == 16,
                    },
                    num_samples: i.duration,
                    data: i.data,
                },
            )
        },
    }
}

/// The sound of an mp3 file, given what the decoder read from it: the
/// file's bytes as they are, 16 bits a sample, the sample count cut to 32
/// bits.
pub open spec fn mp3_sound(bytes: Seq<u8>, decoded: Result<Mp3Info, Seq<char>>) -> Result<
    SoundView,
    SoundErrorView,
> {
    match decoded {
        Err(m) => Err(SoundErrorView::Mp3Decode(m)),
        Ok(i) => if !(i.channels == 1 || i.channels == 2) {
            Err(SoundErrorView::Channels(i.channels))
        } else if !mp3_rate_supported(i.sample_rate) {
            Err(SoundErrorView::Mp3SampleRate(i.sample_rate))
        } else {
            Ok(
                SoundView {
                    format: SoundFormat {
                        mp3: true,
                        sample_rate: i.sample_rate as u16,
                        is_stereo: i.channels == 2,
                        is_16_bit: true,
                    },
                    num_samples: i.num_samples as u32,
                    data: bytes,
                },
            )
        },
    }
}

pub open spec fn is_mp3(name: Seq<char>) -> bool {
    has_suffix(name, ".mp3"@)
}

pub open spec fn is_wav(name: Seq<char>) -> bool {
    has_suffix(name, ".wav"@)
}

/// What a file of the assets directory makes, if it is a sound.
pub open spec fn asset_sound(a: SoundAssetView) -> Option<Result<SoundView, SoundErrorView>> {
    if is_mp3(a.file_name@) {
        Some(mp3_sound(a.data, a.mp3))
    } else if is_wav(a.file_name@) {
        Some(wav_sound(a.data))
    } else {
        None
    }
}

/// The first failure of the sounds, if any.
pub enum AudioFailure {
    /// a sound file could not be used: its name and the reason
    Sound(String, SoundErrorView),
    IdsExhausted,
}

/// The sounds of the assets, in their order: the tags they add, the next
/// free character id, and the failure that stopped them.
pub struct AudioPlan {
    pub tags: Seq<ExportTagView>,
    pub next_id: int,
    pub failure: Option<AudioFailure>,
}

/// The tags of a sound with the id `id`, exported under a file name.
pub open spec fn sound_tags(id: int, name: String, sound: SoundView) -> Seq<ExportTagView> {
    seq![
        ExportTagView::DefineSound {
            id: id as u16,
            format: sound.format,
            num_samples: sound.num_samples,
            data: sound.data,
        },
        ExportTagView::ExportAssets { id: id as u16, name },
    ]
}

pub open spec fn audio_plan(b: int, assets: Seq<SoundAssetView>) -> AudioPlan
    decreases assets.len(),
{
    if assets.len() == 0 {
        AudioPlan { tags: Seq::empty(), next_id: b, failure: None }
    } else {
        let prev = audio_plan(b, assets.drop_last());
        let a = assets.last();
        if prev.failure is Some {
            prev
        } else {
            match asset_sound(a) {
                None => prev,
                Some(Err(e)) => AudioPlan { failure: Some(AudioFailure::Sound(a.file_name, e)), ..prev },
                Some(Ok(sound)) => if prev.next_id >= u16::MAX {
                    AudioPlan { failure: Some(AudioFailure::IdsExhausted), ..prev }
                } else {
                    AudioPlan {
                        tags: prev.tags + sound_tags(prev.next_id, a.file_name, sound),
                        next_id: prev.next_id + 1,
                        failure: None,
                    }
                },
            }
        }
    }
}

/// A sound to be defined in the exported file.
pub struct Sound {
    pub format: SoundFormat,
    pub num_samples: u32,
    pub data: Vec<u8>,
}

impl View for Sound {
    type V = SoundView;

    open spec fn view(&self) -> SoundView {
        SoundView { format: self.format, num_samples: self.num_samples, data: self.data@ }
    }
}

pub open spec fn sound_result_view(r: Result<Sound, SoundError>) -> Result<SoundView, SoundErrorView> {
    match r {
        Ok(s) => Ok(s@),
        Err(e) => Err(e@),
    }
}

/// What adding a sound to the builder does: where the sound cannot be
/// used, the error names the file and the builder stays as it was; with the
/// ids used up, the builder stays too; otherwise the sound's tags follow
/// under the next id.
pub open spec fn adds_sound(
    before: BuilderView,
    after: BuilderView,
    r: Result<(), ExportError>,
    name: String,
    sound: Result<SoundView, SoundErrorView>,
) -> bool {
    match sound {
        Err(e) => {
            &&& r matches Err(x) && x is Sound && x->Sound_0 == name && x->Sound_1@ == e
            &&& after == before
        },
        Ok(s) => if before.counter >= u16::MAX {
            &&& r == Err::<(), ExportError>(ExportError::CharacterIdsExhausted)
            &&& after == before
        } else {
            &&& r is Ok
            &&& after == BuilderView {
                tags: before.tags + sound_tags(before.counter, name, s),
                counter: before.counter + 1,
                ..before
            }
        },
    }
}

/// Defines a sound under the next id and exports it under the file name.
fn push_sound(swf_builder: &mut SwfBuilder, file_name: &String, sound: Sound) -> (r: Result<
    (),
    ExportError,
>)
    requires
        old(swf_builder).wf(),
    ensures
        final(swf_builder).wf(),
        adds_sound(old(swf_builder)@, final(swf_builder)@, r, *file_name, Ok(sound@)),
{
    let character_id = match swf_builder.next_character_id() {
        Ok(id) => id,
        Err(e) => {
            assert(swf_builder@ =~= old(swf_builder)@);
            return Err(e);
        },
    };
    let ghost before = tags_view(swf_builder.tags@);
    swf_builder.tags.push(
        ExportTag::DefineSound {
            id: character_id,
            format: sound.format,
            num_samples: sound.num_samples,
            data: sound.data,
        },
    );
    swf_builder.tags.push(ExportTag::ExportAssets { id: character_id, name: file_name.clone() });
    assert(tags_view(swf_builder.tags@) =~= before + sound_tags(
        character_id as int,
        *file_name,
        sound@,
    ));
    Ok(())
}

/// Checks a wave file and takes its samples as they are.
fn wav_of(bytes: &Vec<u8>) -> (r: Result<Sound, SoundError>)
    ensures
        sound_result_view(r) == wav_sound(bytes@),
{
    let info = match read_wav(bytes) {
        Ok(info) => info,
        Err(message) => return Err(SoundError::WaveDecode(message)),
    };
    if !(info.channels == 1 || info.channels == 2) {
        return Err(SoundError::Channels(info.channels as usize));
    }
    if !(info.bits_per_sample == 8 || info.bits_per_sample == 16) {
        return Err(SoundError::BitsPerSample(info.bits_per_sample));
    }
    let supported_sample_rate = match info.sample_rate {
        5512 => true,
        11025 => true,
        22050 => true,
        44100 => true,
        _ => false,
    };
    if !supported_sample_rate {
        return Err(SoundError::WaveSampleRate(info.sample_rate));
    }
    Ok(
        Sound {
            format: SoundFormat {
                mp3: false,
                sample_rate: info.sample_rate as u16,
                is_stereo: info.channels == 2,
                is_16_bit: info.bits_per_sample == 16,
            },
            num_samples: info.duration,
            data: info.data,
        },
    )
}

/// Checks an mp3 file, given what the decoder read from it, and takes its
/// bytes as they are.
fn mp3_of(bytes: &Vec<u8>, decoded: &Result<Mp3Info, String>) -> (r: Result<Sound, SoundError>)
    ensures
        sound_result_view(r) == mp3_sound(bytes@, mp3_result_view(*decoded)),
{
    let info = match decoded {
        Ok(info) => *info,
        Err(message) => return Err(SoundError::Mp3Decode(message.clone())),
    };
    if !(info.channels == 1 || info.channels == 2) {
        return Err(SoundError::Channels(info.channels));
    }
    let supported_sample_rate = match info.sample_rate {
        5512 => false,  // mp3 does not allow it
        11025 => true,
        22050 => true,
        44100 => true,
        _ => false,
    };
    if !supported_sample_rate {
        return Err(SoundError::Mp3SampleRate(info.sample_rate));
    }
    Ok(
        Sound {
            format: SoundFormat {
                mp3: true,
                sample_rate: info.sample_rate as u16,
                is_stereo: info.channels == 2,
                // mp3 is always decoded to 16 bits
                is_16_bit: true,
            },
            num_samples: info.num_samples as u32,
            data: bytes.clone(),
        },
    )
}

/// Adds a wave file as an uncompressed sound, exported under its file name.
pub fn build_wav(swf_builder: &mut SwfBuilder, file_name: &String, bytes: &Vec<u8>) -> (r: Result<
    (),
    ExportError,
>)
    requires
        old(swf_builder).wf(),
    ensures
        final(swf_builder).wf(),
        adds_sound(old(swf_builder)@, final(swf_builder)@, r, *file_name, wav_sound(bytes@)),
{
    match wav_of(bytes) {
        Ok(sound) => push_sound(swf_builder, file_name, sound),
        Err(e) => Err(ExportError::Sound(file_name.clone(), e)),
    }
}

/// Adds an mp3 file, given what the decoder read from it, as an mp3 sound
/// exported under its file name.
pub fn build_mp3(
    swf_builder: &mut SwfBuilder,
    file_name: &String,
    bytes: &Vec<u8>,
    decoded: &Result<Mp3Info, String>,
) -> (r: Result<(), ExportError>)
    requires
        old(swf_builder).wf(),
    ensures
        final(swf_builder).wf(),
        adds_sound(
            old(swf_builder)@,
            final(swf_builder)@,
            r,
            *file_name,
            mp3_sound(bytes@, mp3_result_view(*decoded)),
        ),
{
    match mp3_of(bytes, decoded) {
        Ok(sound) => push_sound(swf_builder, file_name, sound),
        Err(e) => Err(ExportError::Sound(file_name.clone(), e)),
    }
}

/// The error that reports a failure of the sounds.
pub open spec fn audio_failure_is(e: ExportError, f: Option<AudioFailure>) -> bool {
    match f {
        Some(AudioFailure::IdsExhausted) => e is CharacterIdsExhausted,
        Some(AudioFailure::Sound(name, reason)) => e is Sound && e->Sound_0 == name
            && e->Sound_1@ == reason,
        None => false,
    }
}

/// Adds a sound for each wave and mp3 file of the assets, in their order,
/// each exported under its file name; other files are passed over.
pub fn build_audio(swf_builder: &mut SwfBuilder, assets: &Vec<SoundAsset>) -> (r: Result<
    (),
    ExportError,
>)
    requires
        old(swf_builder).wf(),
    ensures
        final(swf_builder).wf(),
        final(swf_builder).symbol_index_to_character_id@ == old(
            swf_builder,
        ).symbol_index_to_character_id@,
        final(swf_builder).symbol_index_to_tag_index@ == old(swf_builder).symbol_index_to_tag_index@,
        r is Ok <==> audio_plan(
            old(swf_builder).character_id_counter as int,
            assets_view(assets@),
        ).failure is None,
        r is Ok ==> tags_view(final(swf_builder).tags@) == tags_view(old(swf_builder).tags@)
            + audio_plan(old(swf_builder).character_id_counter as int, assets_view(assets@)).tags
            && final(swf_builder).character_id_counter == audio_plan(
            old(swf_builder).character_id_counter as int,
            assets_view(assets@),
        ).next_id,
        r matches Err(e) ==> audio_failure_is(
            e,
            audio_plan(old(swf_builder).character_id_counter as int, assets_view(assets@)).failure,
        ),
{
    let ghost b = swf_builder.character_id_counter as int;
    let ghost old_tags = tags_view(swf_builder.tags@);
    let mut k: usize = 0;
    while k < assets.len()
        invariant
            k <= assets.len(),
            swf_builder.wf(),
            swf_builder.symbol_index_to_character_id@ == old(swf_builder).symbol_index_to_character_id@,
            swf_builder.symbol_index_to_tag_index@ == old(swf_builder).symbol_index_to_tag_index@,
            b == old(swf_builder).character_id_counter,
            old_tags == tags_view(old(swf_builder).tags@),
            audio_plan(b, assets_view(assets@).take(k as int)).failure is None,
            tags_view(swf_builder.tags@) == old_tags + audio_plan(
                b,
                assets_view(assets@).take(k as int),
            ).tags,
            swf_builder.character_id_counter == audio_plan(
                b,
                assets_view(assets@).take(k as int),
            ).next_id,
        decreases assets.len() - k,
    {
        let asset = &assets[k];
        let ghost prefix = assets_view(assets@).take(k as int);
        let ghost next = assets_view(assets@).take(k + 1);
        assert(next.drop_last() =~= prefix);
        assert(next.last() == asset@);
        let ghost pre = swf_builder@;
        let result = if ends_with(asset.file_name.as_str(), ".mp3") {
            Some(build_mp3(swf_builder, &asset.file_name, &asset.data, &asset.mp3))
        } else if ends_with(asset.file_name.as_str(), ".wav") {
            Some(build_wav(swf_builder, &asset.file_name, &asset.data))
        } else {
            None
        };
        proof {
            reveal_strlit(".mp3");
            reveal_strlit(".wav");
        }
        match result {
            None => {},
            Some(Ok(())) => {},
            Some(Err(e)) => {
                proof {
                    lemma_plan_stops(b, assets_view(assets@), k as int + 1);
                }
                return Err(e);
            },
        }
        k = k + 1;
    }
    assert(assets_view(assets@).take(k as int) =~= assets_view(assets@));
    Ok(())
}

/// Once the sounds fail, the failure stays whatever files follow.
proof fn lemma_plan_stops(b: int, assets: Seq<SoundAssetView>, k: int)
    requires
        0 <= k <= assets.len(),
        audio_plan(b, assets.take(k)).failure is Some,
    ensures
        audio_plan(b, assets) == audio_plan(b, assets.take(k)),
    decreases assets.len() - k,
{
    if k < assets.len() {
        assert(assets.take(k + 1).drop_last() =~= assets.take(k));
        lemma_plan_stops(b, assets, k + 1);
    } else {
        assert(assets.take(k) =~= assets);
    }
}

/// A wave file that decodes, with one or two channels and 8 or 16 bits a
/// sample, is taken exactly when its sample rate is 5512, 11025, 22050 or
/// 44100 Hz; the sound then has that rate, is stereo with two channels,
/// 16-bit with 16 bits, and keeps the file's samples and their count.
pub proof fn lemma_wave_rates(bytes: Seq<u8>)
    requires
        wav_decoded(bytes) is Ok,
        wav_decoded(bytes)->Ok_0.channels == 1 || wav_decoded(bytes)->Ok_0.channels == 2,
        wav_decoded(bytes)->Ok_0.bits_per_sample == 8 || wav_decoded(bytes)->Ok_0.bits_per_sample
            == 16,
    ensures
        ({
            let i = wav_decoded(bytes)->Ok_0;
            &&& (wav_sound(bytes) is Ok <==> (i.sample_rate == 5512 || i.sample_rate == 11025
                || i.sample_rate == 22050 || i.sample_rate == 44100))
            &&& wav_sound(bytes) matches Ok(s) ==> {
                &&& !s.format.mp3
                &&& s.format.sample_rate == i.sample_rate
                &&& s.format.is_stereo == (i.channels == 2)
                &&& s.format.is_16_bit == (i.bits_per_sample == 16)
                &&& s.num_samples == i.duration
                &&& s.data == i.data
            }
            &&& wav_sound(bytes) matches Err(e) ==> e == SoundErrorView::WaveSampleRate(
                i.sample_rate,
            )
        }),
{
}

/// An mp3 file that decodes, with one or two channels, is taken exactly
/// when its sample rate is 11025, 22050 or 44100 Hz (5512 Hz is not allowed
/// for mp3); the sound then has that rate, is 16-bit, and keeps the file's
/// bytes.
pub proof fn lemma_mp3_rates(bytes: Seq<u8>, decoded: Result<Mp3Info, Seq<char>>)
    requires
        decoded is Ok,
        decoded->Ok_0.channels == 1 || decoded->Ok_0.channels == 2,
    ensures
        ({
            let i = decoded->Ok_0;
            &&& (mp3_sound(bytes, decoded) is Ok <==> (i.sample_rate == 11025 || i.sample_rate
                == 22050 || i.sample_rate == 44100))
            &&& mp3_sound(bytes, decoded) matches Ok(s) ==> {
                &&& s.format.mp3
                &&& s.format.sample_rate == i.sample_rate
                &&& s.format.is_stereo == (i.channels == 2)
                &&& s.format.is_16_bit
                &&& s.data == bytes
            }
        }),
{
}

} // verus!
