//! As decisões da detecção via MPRIS: que player seguir, o que uma leitura de
//! posição quer dizer, e o que mudou desde a última olhada. Quem fala com o
//! barramento é a aplicação; aqui só se decide.
//!
//! O ponto delicado está na leitura de posição: a `Position` de várias fontes
//! é quantizada em 1 segundo, então a leitura crua carrega até 1000ms de erro.
//! O que tem precisão real é o *instante da virada*. Por isso o poll é rápido
//! e só a mudança de valor vira âncora confiável.

use std::time::Instant;

use vstd::prelude::*;

use super::{AnchorConfidence, MediaEvent, PlaybackState, Track};
use crate::text::{
    chars_of, ends_with, find, find_chars, join, join_chars, matches_at, pieces_view, same_text,
    slice_vec, starts_with, starts_with_chars, string_of,
};
use crate::time::elapsed_ms;

use crate::webview::sync::clock::Clock;

verus! {

pub const MPRIS_PREFIX: &'static str = "org.mpris.MediaPlayer2.";

/// Agregador que espelha os outros players. Contar com ele duplicaria tudo.
pub const AGGREGATOR: &'static str = "org.mpris.MediaPlayer2.playerctld";

/// Intervalo mínimo entre âncoras enviadas, fora saltos.
pub const ANCHOR_THROTTLE_MS: u64 = 500;

// ---------------------------------------------------------------------------
// Quem está tocando
// ---------------------------------------------------------------------------

/// O nome do player sem o prefixo do MPRIS e sem o sufixo de instância.
pub open spec fn source_of(bus: Seq<char>) -> Seq<char> {
    let p = MPRIS_PREFIX@;
    let s = if starts_with(bus, p) {
        bus.skip(p.len() as int)
    } else {
        bus
    };
    match find(s, ".instance"@) {
        Some(k) => s.take(k),
        None => s,
    }
}

/// `org.mpris.MediaPlayer2.firefox.instance_1_32` → `firefox`.
pub fn source_name(bus_name: &str) -> (r: String)
    ensures
        r@ == source_of(bus_name@),
{
    let bus = chars_of(bus_name);
    let prefix = chars_of(MPRIS_PREFIX);
    let rest = if starts_with_chars(bus.as_slice(), prefix.as_slice()) {
        let r = slice_vec(bus.as_slice(), prefix.len(), bus.len());
        assert(r@ =~= bus@.skip(prefix@.len() as int));
        r
    } else {
        bus
    };
    let marker = chars_of(".instance");
    match find_chars(rest.as_slice(), marker.as_slice()) {
        Some(k) => {
            proof {
                crate::text::lemma_find_from(rest@, marker@, 0);
            }
            let part = slice_vec(rest.as_slice(), 0, k);
            assert(part@ =~= rest@.take(k as int));
            string_of(part.as_slice())
        },
        None => string_of(rest.as_slice()),
    }
}

/// Um nome no barramento que é um player de verdade.
pub open spec fn is_candidate(name: Seq<char>) -> bool {
    starts_with(name, MPRIS_PREFIX@) && name != AGGREGATOR@
}

/// Os players do barramento, na ordem em que vieram, sem o agregador.
pub fn candidates(names: &[String]) -> (r: Vec<String>)
    ensures
        r@.map_values(|n: String| n@) == names@.map_values(|n: String| n@).filter(
            |n: Seq<char>| is_candidate(n),
        ),
{
    let prefix = chars_of(MPRIS_PREFIX);
    let mut out: Vec<String> = Vec::new();
    let mut i: usize = 0;
    let ghost all = names@.map_values(|n: String| n@);
    while i < names.len()
        invariant
            i <= names@.len(),
            prefix@ == MPRIS_PREFIX@,
            all == names@.map_values(|n: String| n@),
            out@.map_values(|n: String| n@) == all.take(i as int).filter(
                |n: Seq<char>| is_candidate(n),
            ),
        decreases names@.len() - i,
    {
        let name = chars_of(names[i].as_str());
        let keep = starts_with_chars(name.as_slice(), prefix.as_slice()) && !same_text(
            names[i].as_str(),
            AGGREGATOR,
        );
        proof {
            reveal(Seq::filter);
            assert(all.take(i + 1).drop_last() =~= all.take(i as int));
            assert(all.take(i + 1).last() == names@[i as int]@);
        }
        if keep {
            out.push(names[i].clone());
            assert(out@.map_values(|n: String| n@) =~= all.take(i as int).filter(
                |n: Seq<char>| is_candidate(n),
            ).push(names@[i as int]@));
        }
        i = i + 1;
    }
    assert(all.take(names@.len() as int) =~= all);
    out
}

/// O primeiro player que respondeu estar tocando.
pub open spec fn first_playing(status: Seq<Option<bool>>, i: int) -> Option<int>
    decreases status.len() - i,
{
    if i < 0 || i >= status.len() {
        None
    } else if status[i] == Some(true) {
        Some(i)
    } else {
        first_playing(status, i + 1)
    }
}

/// O último player que respondeu e é o que já estava sendo seguido.
pub open spec fn current_alive(
    names: Seq<Seq<char>>,
    status: Seq<Option<bool>>,
    current: Option<Seq<char>>,
    n: int,
) -> Option<int>
    decreases n,
{
    if n <= 0 || n > status.len() {
        None
    } else if status[n - 1] is Some && current == Some(names[n - 1]) {
        Some(n - 1)
    } else {
        current_alive(names, status, current, n - 1)
    }
}

/// O primeiro player que respondeu e não é o que já estava sendo seguido.
pub open spec fn first_other(
    names: Seq<Seq<char>>,
    status: Seq<Option<bool>>,
    current: Option<Seq<char>>,
    i: int,
) -> Option<int>
    decreases status.len() - i,
{
    if i < 0 || i >= status.len() {
        None
    } else if status[i] is Some && current != Some(names[i]) {
        Some(i)
    } else {
        first_other(names, status, current, i + 1)
    }
}

/// Quem tocar ganha; na dúvida, o atual, para não ficar pulando entre fontes;
/// senão, o primeiro que respondeu.
pub open spec fn pick(
    names: Seq<Seq<char>>,
    status: Seq<Option<bool>>,
    current: Option<Seq<char>>,
) -> Option<int> {
    match first_playing(status, 0) {
        Some(i) => Some(i),
        None => match current_alive(names, status, current, status.len() as int) {
            Some(i) => Some(i),
            None => first_other(names, status, current, 0),
        },
    }
}

/// Escolhe o player que interessa.
///
/// `status[i]` é a resposta do player `names[i]`: se está tocando, ou `None`
/// quando ele nem chegou a responder.
pub fn pick_player(names: &[String], status: &[Option<bool>], current: Option<&str>) -> (r:
    Option<usize>)
    requires
        names@.len() == status@.len(),
    ensures
        match r {
            Some(i) => pick(
                names@.map_values(|n: String| n@),
                status@,
                match current {
                    Some(c) => Some(c@),
                    None => None,
                },
            ) == Some(i as int),
            None => pick(
                names@.map_values(|n: String| n@),
                status@,
                match current {
                    Some(c) => Some(c@),
                    None => None,
                },
            ) is None,
        },
{
    let ghost ns = names@.map_values(|n: String| n@);
    let ghost cur: Option<Seq<char>> = match current {
        Some(c) => Some(c@),
        None => None,
    };
    let mut alive: Option<usize> = None;
    let mut other: Option<usize> = None;
    let mut i: usize = 0;
    while i < status.len()
        invariant
            names@.len() == status@.len(),
            i <= status@.len(),
            ns == names@.map_values(|n: String| n@),
            cur == match current {
                Some(c) => Some(c@),
                None => None::<Seq<char>>,
            },
            first_playing(status@, 0) == first_playing(status@, i as int),
            match alive {
                Some(k) => current_alive(ns, status@, cur, i as int) == Some(k as int),
                None => current_alive(ns, status@, cur, i as int) is None,
            },
            match other {
                Some(k) => first_other(ns, status@, cur, 0) == Some(k as int) && k < i,
                None => first_other(ns, status@, cur, 0) == first_other(ns, status@, cur, i as int),
            },
        decreases status@.len() - i,
    {
        if status[i] == Some(true) {
            return Some(i);
        }
        let name = names[i].as_str();
        assert(name@ == names@[i as int]@);
        let is_current = match current {
            Some(c) => {
                same_text(name, c)
            },
            None => false,
        };
        assert(ns[i as int] == names@[i as int]@);
        assert(is_current == (cur == Some(ns[i as int])));
        if status[i].is_some() {
            if is_current {
                alive = Some(i);
            } else if other.is_none() {
                other = Some(i);
            }
        }
        i = i + 1;
    }
    match alive {
        Some(k) => Some(k),
        None => other,
    }
}


// ---------------------------------------------------------------------------
// Metadados
// ---------------------------------------------------------------------------

/// O estado que o `PlaybackStatus` diz: só `Playing` e `Paused` contam; o
/// resto é parado.
pub open spec fn state_of(status: Seq<char>) -> PlaybackState {
    if status == "Playing"@ {
        PlaybackState::Playing
    } else if status == "Paused"@ {
        PlaybackState::Paused
    } else {
        PlaybackState::Stopped
    }
}

pub fn estado_do_status(status: &str) -> (r: PlaybackState)
    ensures
        r == state_of(status@),
{
    if same_text(status, "Playing") {
        PlaybackState::Playing
    } else if same_text(status, "Paused") {
        PlaybackState::Paused
    } else {
        PlaybackState::Stopped
    }
}

/// Os nomes não vazios da lista, nesta ordem.
pub open spec fn nonempty_names(v: Seq<Seq<char>>) -> Seq<Seq<char>> {
    v.filter(|n: Seq<char>| n.len() > 0)
}

/// `xesam:artist` é uma lista por spec: os nomes não vazios, ligados por
/// `, `; nenhum, quando não sobra nenhum.
pub fn artistas_em_texto(nomes: &[String]) -> (r: Option<String>)
    ensures
        nonempty_names(nomes@.map_values(|s: String| s@)).len() > 0 ==> r is Some && r->0@ == join(
            nonempty_names(nomes@.map_values(|s: String| s@)),
            ", "@,
        ),
        nonempty_names(nomes@.map_values(|s: String| s@)).len() == 0 ==> r is None,
{
    let ghost all = nomes@.map_values(|s: String| s@);
    let ghost p = |n: Seq<char>| n.len() > 0;
    let mut out: Vec<Vec<char>> = Vec::new();
    let mut i: usize = 0;
    proof {
        reveal(Seq::filter);
        assert(all.take(0).filter(p) =~= Seq::<Seq<char>>::empty());
        assert(pieces_view(out@) =~= Seq::<Seq<char>>::empty());
    }
    while i < nomes.len()
        invariant
            i <= nomes@.len(),
            all == nomes@.map_values(|s: String| s@),
            p == (|n: Seq<char>| n.len() > 0),
            pieces_view(out@) == all.take(i as int).filter(p),
        decreases nomes@.len() - i,
    {
        proof {
            assert(all.take(i + 1).drop_last() =~= all.take(i as int));
            assert(all.take(i + 1).last() == nomes@[i as int]@);
            reveal(Seq::filter);
        }
        let c = chars_of(nomes[i].as_str());
        let ghost antes = pieces_view(out@);
        if c.len() > 0 {
            out.push(c);
            assert(pieces_view(out@) =~= antes.push(nomes@[i as int]@));
        }
        i = i + 1;
    }
    assert(all.take(nomes@.len() as int) =~= all);
    if out.len() > 0 {
        Some(string_of(join_chars(out.as_slice(), ", ").as_slice()))
    } else {
        None
    }
}

/// `mpris:length` vem em microssegundos: em milissegundos, e nada quando não
/// é positivo.
pub fn micros_em_ms(micros: i64) -> (r: Option<u64>)
    ensures
        micros > 0 ==> r == Some((micros / 1000) as u64),
        micros <= 0 ==> r is None,
{
    if micros > 0 {
        Some((micros / 1000) as u64)
    } else {
        None
    }
}

pub open spec fn opt_nonempty(o: Option<String>) -> Option<String> {
    match o {
        Some(s) => if s@.len() > 0 {
            Some(s)
        } else {
            None
        },
        None => None,
    }
}

fn nao_vazio(o: Option<String>) -> (r: Option<String>)
    ensures
        r == opt_nonempty(o),
{
    match o {
        Some(s) => if s.unicode_len() > 0 {
            Some(s)
        } else {
            None
        },
        None => None,
    }
}

fn ou_vazio(o: Option<String>) -> (r: String)
    ensures
        match o {
            Some(s) => r == s,
            None => r@.len() == 0,
        },
{
    match o {
        Some(s) => s,
        None => String::new(),
    }
}

/// A faixa dos metadados já lidos como texto: título, artista e álbum (vazios
/// quando faltam), a duração em microssegundos, capa e URL (nada quando
/// vazias), e a fonte.
pub fn parse_track(
    title: Option<String>,
    artist: Option<String>,
    album: Option<String>,
    length_us: Option<i64>,
    art_url: Option<String>,
    url: Option<String>,
    source: &str,
) -> (t: Track)
    ensures
        t.title@ == match title {
            Some(s) => s@,
            None => Seq::empty(),
        },
        t.artist@ == match artist {
            Some(s) => s@,
            None => Seq::empty(),
        },
        t.album@ == match album {
            Some(s) => s@,
            None => Seq::empty(),
        },
        t.duration_ms == match length_us {
            Some(m) => if m > 0 {
                Some((m / 1000) as u64)
            } else {
                None
            },
            None => None,
        },
        t.art_url == opt_nonempty(art_url),
        t.url == opt_nonempty(url),
        t.source@ == source@,
{
    Track {
        title: ou_vazio(title),
        artist: ou_vazio(artist),
        album: ou_vazio(album),
        duration_ms: match length_us {
            Some(m) => micros_em_ms(m),
            None => None,
        },
        art_url: nao_vazio(art_url),
        url: nao_vazio(url),
        source: string_of(chars_of(source).as_slice()),
    }
}

pub open spec fn opt_eq(a: Option<String>, b: Option<String>) -> bool {
    match (a, b) {
        (Some(x), Some(y)) => x@ == y@,
        (None, None) => true,
        _ => false,
    }
}

/// Duas leituras da mesma faixa: todo campo igual.
pub open spec fn same_track(a: Track, b: Track) -> bool {
    &&& a.title@ == b.title@
    &&& a.artist@ == b.artist@
    &&& a.album@ == b.album@
    &&& a.duration_ms == b.duration_ms
    &&& opt_eq(a.art_url, b.art_url)
    &&& opt_eq(a.url, b.url)
    &&& a.source@ == b.source@
}

fn mesmo_opcional(a: &Option<String>, b: &Option<String>) -> (r: bool)
    ensures
        r == opt_eq(*a, *b),
{
    match (a, b) {
        (Some(x), Some(y)) => same_text(x.as_str(), y.as_str()),
        (None, None) => true,
        _ => false,
    }
}

pub fn mesma_faixa(a: &Track, b: &Track) -> (r: bool)
    ensures
        r == same_track(*a, *b),
{
    same_text(a.title.as_str(), b.title.as_str()) && same_text(a.artist.as_str(), b.artist.as_str())
        && same_text(a.album.as_str(), b.album.as_str()) && a.duration_ms == b.duration_ms
        && mesmo_opcional(&a.art_url, &b.art_url) && mesmo_opcional(&a.url, &b.url) && same_text(
        a.source.as_str(),
        b.source.as_str(),
    )
}

/// Uma faixa sem título e sem artista: nada a mostrar.
pub open spec fn blank_track(t: Track) -> bool {
    t.title@.len() == 0 && t.artist@.len() == 0
}

// ---------------------------------------------------------------------------
// O player escolhido e tudo que já sabemos sobre ele
// ---------------------------------------------------------------------------

pub struct Following {
    /// Quem está tocando: o nome do player, sem prefixo.
    pub source: String,
    pub track: Track,
    pub state: PlaybackState,
    pub clock: Clock,
    pub last_raw_position: Option<i64>,
    pub last_anchor_sent: Option<Instant>,
}

/// Microssegundos do MPRIS em milissegundos, nunca antes do início.
pub open spec fn position_of(raw: i64) -> u64 {
    if raw < 0 {
        0
    } else {
        (raw / 1000) as u64
    }
}

/// O aviso de uma âncora nesta posição, com esta confiança.
pub open spec fn announces_anchor(r: Option<MediaEvent>, p: u64, c: AnchorConfidence) -> bool {
    match r {
        Some(MediaEvent::PositionAnchored { position_ms, confidence }) => position_ms == p
            && confidence == c,
        _ => false,
    }
}

/// O aviso de um salto para esta posição.
pub open spec fn announces_seek(r: Option<MediaEvent>, p: u64) -> bool {
    match r {
        Some(MediaEvent::Seeked { position_ms }) => position_ms == p,
        _ => false,
    }
}

/// O relógio ancorado na leitura, no instante em que ela foi feita.
pub open spec fn re_anchored(f: Following, raw: i64, observed_at: Instant) -> bool {
    &&& f.clock.anchor_position() == position_of(raw)
    &&& f.clock.anchor_instant() == observed_at
}

fn copiar_opcional(o: &Option<String>) -> (r: Option<String>)
    ensures
        opt_eq(r, *o),
{
    match o {
        Some(s) => Some(s.clone()),
        None => None,
    }
}

pub fn copy_track(t: &Track) -> (r: Track)
    ensures
        same_track(r, *t),
{
    Track {
        title: t.title.clone(),
        artist: t.artist.clone(),
        album: t.album.clone(),
        duration_ms: t.duration_ms,
        art_url: copiar_opcional(&t.art_url),
        url: copiar_opcional(&t.url),
        source: t.source.clone(),
    }
}

impl Following {
    pub fn new(source: String) -> (f: Self)
        ensures
            f.source == source,
            f.state == PlaybackState::Stopped,
            !f.clock.anchored(),
            f.last_raw_position is None,
            f.last_anchor_sent is None,
    {
        Following {
            source,
            track: Track {
                title: String::new(),
                artist: String::new(),
                album: String::new(),
                duration_ms: None,
                art_url: None,
                url: None,
                source: String::new(),
            },
            state: PlaybackState::Stopped,
            clock: Clock::new(),
            last_raw_position: None,
            last_anchor_sent: None,
        }
    }

    /// Relidos o estado e os metadados: o que mudou vira aviso, primeiro o
    /// estado, depois a faixa. Faixa nova zera o relógio: a posição antiga não
    /// vale mais nada.
    pub fn refresh(&mut self, status: &str, track: Track) -> (r: Vec<MediaEvent>)
        ensures
            final(self).source == old(self).source,
            final(self).state == state_of(status@),
            r@.len() <= 2,
            ({
                let mudou_estado = state_of(status@) != old(self).state;
                let nova = !blank_track(track) && !same_track(track, old(self).track);
                &&& mudou_estado ==> r@.len() >= 1 && r@[0] == (MediaEvent::PlaybackChanged { state: state_of(status@) })
                &&& r@.len() == (if mudou_estado { 1int } else { 0 }) + (if nova { 1int } else { 0 })
                &&& nova ==> (r@.last() matches MediaEvent::TrackChanged { track: t } && same_track(t, track))
                &&& nova ==> final(self).track == track && !final(self).clock.anchored()
                    && final(self).clock.playing() == (state_of(status@) == PlaybackState::Playing)
                    && final(self).last_raw_position is None && final(self).last_anchor_sent is None
                &&& !nova ==> final(self).track == old(self).track && final(self).last_raw_position
                    == old(self).last_raw_position && final(self).last_anchor_sent == old(self).last_anchor_sent
            }),
    {
        let mut avisos: Vec<MediaEvent> = Vec::new();
        let state = estado_do_status(status);
        if state != self.state {
            self.state = state;
            self.clock.set_playing(state.is_playing());
            avisos.push(MediaEvent::PlaybackChanged { state });
        }
        let vazia = track.title.unicode_len() == 0 && track.artist.unicode_len() == 0;
        if !vazia && !mesma_faixa(&track, &self.track) {
            let copia = copy_track(&track);
            self.track = track;
            self.clock = Clock::new();
            self.clock.set_playing(self.state.is_playing());
            self.last_raw_position = None;
            self.last_anchor_sent = None;
            avisos.push(MediaEvent::TrackChanged { track: copia });
        }
        avisos
    }

    /// Uma leitura de `Position`, lida em `observed_at`: o que avisar.
    ///
    /// O tempo decorrido desde a âncora e desde o último aviso é lido do
    /// relógio da máquina; a decisão é a de [`Following::position_read`].
    pub fn poll_position(&mut self, raw: i64, observed_at: Instant) -> (r: Option<MediaEvent>)
        ensures
            final(self).last_raw_position == Some(raw),
            final(self).clock.anchored(),
            !old(self).clock.anchored() ==> announces_anchor(
                r,
                position_of(raw),
                AnchorConfidence::Sample,
            ),
            old(self).clock.anchored() && old(self).last_raw_position == Some(raw) ==> r is None,
    {
        let since_anchor = self.clock.since_anchor_ms();
        let since_sent = match &self.last_anchor_sent {
            Some(t) => Some(elapsed_ms(t)),
            None => None,
        };
        self.position_read(raw, observed_at, since_anchor, since_sent)
    }

    /// O coração da precisão.
    ///
    /// `since_anchor` é quanto passou desde a âncora do relógio, e
    /// `since_sent` desde o último aviso de âncora, ambos em milissegundos.
    pub fn position_read(
        &mut self,
        raw: i64,
        observed_at: Instant,
        since_anchor: u64,
        since_sent: Option<u64>,
    ) -> (r: Option<MediaEvent>)
        ensures
            final(self).last_raw_position == Some(raw),
            final(self).source == old(self).source,
            final(self).state == old(self).state,
            final(self).clock.playing() == old(self).clock.playing(),
            final(self).clock.offset() == old(self).clock.offset(),
            final(self).clock.anchored(),
            // Primeira leitura da faixa: ainda sem borda, mas é melhor mostrar
            // algo impreciso agora do que nada por até um segundo.
            !old(self).clock.anchored() ==> {
                &&& re_anchored(*final(self), raw, observed_at)
                &&& final(self).last_anchor_sent == Some(observed_at)
                &&& announces_anchor(r, position_of(raw), AnchorConfidence::Sample)
            },
            // Entre bordas o valor é velho — não diz nada que já não saibamos.
            old(self).clock.anchored() && old(self).last_raw_position == Some(raw) ==> {
                &&& r is None
                &&& final(self).clock == old(self).clock
                &&& final(self).last_anchor_sent == old(self).last_anchor_sent
            },
            // Um salto: avisa sempre.
            old(self).clock.anchored() && old(self).last_raw_position != Some(raw)
                && old(self).clock.seek_after_spec(since_anchor, position_of(raw)) ==> {
                &&& re_anchored(*final(self), raw, observed_at)
                &&& final(self).last_anchor_sent == Some(observed_at)
                &&& announces_seek(r, position_of(raw))
            },
            // Uma borda: ancora sempre, avisa no máximo a cada meio segundo.
            old(self).clock.anchored() && old(self).last_raw_position != Some(raw)
                && !old(self).clock.seek_after_spec(since_anchor, position_of(raw)) ==> {
                &&& re_anchored(*final(self), raw, observed_at)
                &&& if since_sent matches Some(d) && d < ANCHOR_THROTTLE_MS {
                    r is None && final(self).last_anchor_sent == old(self).last_anchor_sent
                } else {
                    final(self).last_anchor_sent == Some(observed_at) && announces_anchor(
                        r,
                        position_of(raw),
                        AnchorConfidence::Edge,
                    )
                }
            },
    {
        let position_ms: u64 = if raw < 0 {
            0
        } else {
            (raw / 1000) as u64
        };
        let changed = match self.last_raw_position {
            Some(last) => last != raw,
            None => true,
        };
        self.last_raw_position = Some(raw);

        if !self.clock.is_anchored() {
            self.clock.anchor_at(position_ms, observed_at);
            self.last_anchor_sent = Some(observed_at);
            return Some(
                MediaEvent::PositionAnchored { position_ms, confidence: AnchorConfidence::Sample },
            );
        }
        if !changed {
            return None;
        }
        if self.clock.looks_like_seek_after(since_anchor, position_ms) {
            self.clock.anchor_at(position_ms, observed_at);
            self.last_anchor_sent = Some(observed_at);
            return Some(MediaEvent::Seeked { position_ms });
        }
        // Borda: a posição real é exatamente esta, neste instante.
        self.clock.anchor_at(position_ms, observed_at);
        let recent = match since_sent {
            Some(d) => d < ANCHOR_THROTTLE_MS,
            None => false,
        };
        if recent {
            // Fontes de alta resolução geram borda a cada poll. Ancorar
            // sempre é grátis; avisar o resto do app dez vezes por segundo não é.
            return None;
        }
        self.last_anchor_sent = Some(observed_at);
        Some(MediaEvent::PositionAnchored { position_ms, confidence: AnchorConfidence::Edge })
    }
}

// ---------------------------------------------------------------------------
// O laço do provedor
// ---------------------------------------------------------------------------

/// A cada quantos ticks reavaliamos quem é o player ativo.
pub const RESCAN_EVERY: u64 = 20;

/// O provedor de mídia do MPRIS. O laço que conversa com o barramento fica
/// com a aplicação; o que ele decide a cada tick está aqui.
pub struct MprisProvider;

impl Default for MprisProvider {
    fn default() -> (r: Self)
        ensures
            r == MprisProvider,
    {
        MprisProvider
    }
}

/// O que fazer depois de procurar o player ativo.
#[derive(Debug, PartialEq, Eq)]
pub enum Escolha {
    /// O mesmo de antes: segue como está.
    Manter,
    /// Outro player, seguido do zero, com este nome no barramento.
    Seguir(String),
    /// Não há mais player: avisar que ele sumiu e pular o resto do tick.
    Sumiu,
    /// Continua sem player: só pular o resto do tick.
    Nada,
}

impl MprisProvider {
    /// Este tick reavalia quem é o player ativo? O primeiro sempre reavalia.
    pub fn hora_de_procurar(ticks: u64) -> (r: bool)
        ensures
            r == (ticks % RESCAN_EVERY == 1),
    {
        ticks % RESCAN_EVERY == 1
    }

    /// O que a busca pelo player muda: `atual` é quem era seguido, `achado`
    /// quem a busca escolheu.
    pub fn depois_da_busca(atual: Option<&str>, achado: Option<String>) -> (r: Escolha)
        ensures
            match achado {
                Some(b) => if atual matches Some(a) && a@ == b@ {
                    r == Escolha::Manter
                } else {
                    r == Escolha::Seguir(b)
                },
                None => if atual is Some {
                    r == Escolha::Sumiu
                } else {
                    r == Escolha::Nada
                },
            },
    {
        match achado {
            Some(b) => {
                let trocou = match atual {
                    Some(a) => !same_text(a, b.as_str()),
                    None => true,
                };
                if trocou {
                    Escolha::Seguir(b)
                } else {
                    Escolha::Manter
                }
            },
            None => if atual.is_some() {
                Escolha::Sumiu
            } else {
                Escolha::Nada
            },
        }
    }
}

} // verus!
