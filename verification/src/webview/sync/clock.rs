//! Relógio de reprodução.
//!
//! A fonte de mídia diz onde a música está só de vez em quando, e com precisão
//! limitada. Este relógio guarda a última âncora confiável e extrapola dali,
//! para que a letra possa ser desenhada a 60fps sem consultar nada.
//!
//! Cada consulta que depende do tempo tem uma irmã que recebe o tempo
//! decorrido desde a âncora, em milissegundos: é nela que está a regra.

use std::time::Instant;

use vstd::prelude::*;

use crate::time::{elapsed_ms, instant_now};

verus! {

/// Acima disto, a diferença entre o observado e o estimado não é imprecisão:
/// o usuário pulou na faixa.
pub const SEEK_THRESHOLD_MS: i64 = 500;

#[derive(Debug, Clone)]
pub struct Clock {
    anchor_ms: u64,
    anchor_at: Instant,
    playing: bool,
    /// Ajuste manual do usuário. Cada fonte tem latência própria.
    offset_ms: i64,
    anchored: bool,
}

/// Um número preso ao que cabe em 64 bits sem sinal.
pub open spec fn capped(x: int) -> u64 {
    if x > u64::MAX {
        u64::MAX
    } else if x < 0 {
        0
    } else {
        x as u64
    }
}

/// Um número preso ao que cabe em 64 bits com sinal.
pub open spec fn capped_signed(x: int) -> i64 {
    if x > i64::MAX {
        i64::MAX
    } else if x < i64::MIN {
        i64::MIN
    } else {
        x as i64
    }
}

impl Clock {
    pub closed spec fn anchor_position(&self) -> u64 {
        self.anchor_ms
    }

    pub closed spec fn anchor_instant(&self) -> Instant {
        self.anchor_at
    }

    pub closed spec fn playing(&self) -> bool {
        self.playing
    }

    pub closed spec fn offset(&self) -> i64 {
        self.offset_ms
    }

    pub closed spec fn anchored(&self) -> bool {
        self.anchored
    }

    /// Posição sem ajuste, `elapsed` milissegundos depois da âncora.
    pub open spec fn raw_after(&self, elapsed: u64) -> u64 {
        if !self.playing() {
            self.anchor_position()
        } else {
            capped(self.anchor_position() + elapsed)
        }
    }

    /// Posição com o ajuste do usuário, nunca antes do início.
    pub open spec fn position_after_spec(&self, elapsed: u64) -> u64 {
        capped(self.raw_after(elapsed) + self.offset())
    }

    /// Quanto a estimativa está à frente do que a fonte reporta.
    pub open spec fn drift_after_spec(&self, elapsed: u64, observed_ms: u64) -> i64 {
        capped_signed(self.raw_after(elapsed) - observed_ms)
    }

    /// Diferença grande demais para ser imprecisão, com âncora já feita.
    pub open spec fn seek_after_spec(&self, elapsed: u64, observed_ms: u64) -> bool {
        let d = self.drift_after_spec(elapsed, observed_ms);
        self.anchored() && (d > SEEK_THRESHOLD_MS || d < -SEEK_THRESHOLD_MS)
    }

    pub fn new() -> (c: Self)
        ensures
            c.anchor_position() == 0,
            !c.playing(),
            c.offset() == 0,
            !c.anchored(),
    {
        Self { anchor_ms: 0, anchor_at: instant_now(), playing: false, offset_ms: 0, anchored: false }
    }

    /// Fixa uma posição conhecida no instante atual.
    pub fn anchor(&mut self, position_ms: u64)
        ensures
            final(self).anchor_position() == position_ms,
            final(self).anchored(),
            final(self).playing() == old(self).playing(),
            final(self).offset() == old(self).offset(),
    {
        let now = instant_now();
        self.anchor_at(position_ms, now);
    }

    /// Como [`Clock::anchor`], mas para um instante que já passou — o caso de
    /// uma leitura que levou tempo para voltar do barramento.
    pub fn anchor_at(&mut self, position_ms: u64, observed_at: Instant)
        ensures
            final(self).anchor_position() == position_ms,
            final(self).anchor_instant() == observed_at,
            final(self).anchored(),
            final(self).playing() == old(self).playing(),
            final(self).offset() == old(self).offset(),
    {
        self.anchor_ms = position_ms;
        self.anchor_at = observed_at;
        self.anchored = true;
    }

    /// Congela onde está antes de trocar de estado, senão o tempo parado
    /// conta como tempo tocado. A âncora é a posição sem o ajuste do usuário:
    /// o ajuste entra uma vez só, na leitura.
    pub fn set_playing(&mut self, playing: bool)
        ensures
            final(self).playing() == playing,
            final(self).offset() == old(self).offset(),
            final(self).anchored() == old(self).anchored(),
            old(self).playing() == playing ==> final(self).anchor_position()
                == old(self).anchor_position(),
            old(self).playing() != playing ==> exists|e: u64|
                final(self).anchor_position() == #[trigger] old(self).raw_after(e),
            !old(self).playing() ==> final(self).anchor_position() == old(self).anchor_position(),
    {
        if playing == self.playing {
            return;
        }
        self.anchor_ms = self.raw_position_ms();
        self.anchor_at = instant_now();
        self.playing = playing;
    }

    pub fn set_offset_ms(&mut self, offset_ms: i64)
        ensures
            final(self).offset() == offset_ms,
            final(self).anchor_position() == old(self).anchor_position(),
            final(self).anchor_instant() == old(self).anchor_instant(),
            final(self).playing() == old(self).playing(),
            final(self).anchored() == old(self).anchored(),
    {
        self.offset_ms = offset_ms;
    }

    pub fn is_anchored(&self) -> (r: bool)
        ensures
            r == self.anchored(),
    {
        self.anchored
    }

    /// Quanto tempo passou desde a âncora, em milissegundos. Depende da hora
    /// em que se pergunta.
    pub fn since_anchor_ms(&self) -> u64 {
        elapsed_ms(&self.anchor_at)
    }

    /// Posição estimada agora, sem o ajuste do usuário.
    pub fn raw_position_ms(&self) -> (r: u64)
        ensures
            exists|e: u64| r == #[trigger] self.raw_after(e),
            !self.playing() ==> r == self.anchor_position(),
    {
        let e = elapsed_ms(&self.anchor_at);
        self.raw_position_after(e)
    }

    /// A posição sem ajuste, `elapsed_ms` depois da âncora.
    pub fn raw_position_after(&self, elapsed_ms: u64) -> (r: u64)
        ensures
            r == self.raw_after(elapsed_ms),
    {
        if !self.playing {
            return self.anchor_ms;
        }
        self.anchor_ms.saturating_add(elapsed_ms)
    }

    /// Posição estimada agora, com o ajuste do usuário aplicado.
    pub fn position_ms(&self) -> (r: u64)
        ensures
            exists|e: u64| r == #[trigger] self.position_after_spec(e),
            !self.playing() ==> r == capped(self.anchor_position() + self.offset()),
    {
        let e = elapsed_ms(&self.anchor_at);
        self.position_after(e)
    }

    /// A posição com o ajuste, `elapsed_ms` depois da âncora.
    pub fn position_after(&self, elapsed_ms: u64) -> (r: u64)
        ensures
            r == self.position_after_spec(elapsed_ms),
    {
        let raw = self.raw_position_after(elapsed_ms) as i128 + self.offset_ms as i128;
        if raw < 0 {
            0
        } else if raw > u64::MAX as i128 {
            u64::MAX
        } else {
            raw as u64
        }
    }

    /// Quanto a estimativa está adiantada em relação ao que a fonte reporta.
    /// Positivo = o relógio está à frente da música.
    pub fn drift_ms(&self, observed_ms: u64) -> (r: i64)
        ensures
            exists|e: u64| r == #[trigger] self.drift_after_spec(e, observed_ms),
    {
        let e = elapsed_ms(&self.anchor_at);
        self.drift_after(e, observed_ms)
    }

    /// O desvio, `elapsed_ms` depois da âncora.
    pub fn drift_after(&self, elapsed_ms: u64, observed_ms: u64) -> (r: i64)
        ensures
            r == self.drift_after_spec(elapsed_ms, observed_ms),
    {
        let d = self.raw_position_after(elapsed_ms) as i128 - observed_ms as i128;
        if d > i64::MAX as i128 {
            i64::MAX
        } else if d < i64::MIN as i128 {
            i64::MIN
        } else {
            d as i64
        }
    }

    /// Só faz sentido chamar depois de já haver uma âncora: antes disso
    /// qualquer diferença é ruído de partida, não um salto.
    pub fn looks_like_seek(&self, observed_ms: u64) -> (r: bool)
        ensures
            exists|e: u64| r == #[trigger] self.seek_after_spec(e, observed_ms),
            !self.anchored() ==> !r,
    {
        let e = elapsed_ms(&self.anchor_at);
        self.looks_like_seek_after(e, observed_ms)
    }

    /// O mesmo juízo, `elapsed_ms` depois da âncora.
    pub fn looks_like_seek_after(&self, elapsed_ms: u64, observed_ms: u64) -> (r: bool)
        ensures
            r == self.seek_after_spec(elapsed_ms, observed_ms),
    {
        if !self.anchored {
            return false;
        }
        let d = self.drift_after(elapsed_ms, observed_ms);
        d > SEEK_THRESHOLD_MS || d < -SEEK_THRESHOLD_MS
    }
}

/// Parado, o relógio não anda: qualquer tempo decorrido dá a mesma posição.
pub proof fn law_stopped_clock_stands_still(c: Clock, e1: u64, e2: u64)
    requires
        !c.playing(),
    ensures
        c.position_after_spec(e1) == c.position_after_spec(e2),
{
}

/// Tocando, o relógio anda junto com o tempo, milissegundo a milissegundo.
pub proof fn law_playing_clock_runs_with_time(c: Clock, e: u64, d: u64)
    requires
        c.playing(),
        c.anchor_position() as int + e as int + d as int <= u64::MAX,
    ensures
        c.raw_after((e + d) as u64) == c.raw_after(e) + d,
{
}

/// Sem âncora não existe salto, por maior que seja a diferença.
pub proof fn law_no_seek_before_the_first_anchor(c: Clock, e: u64, observed: u64)
    requires
        !c.anchored(),
    ensures
        !c.seek_after_spec(e, observed),
{
}

/// O ajuste nunca leva a posição para antes do início da faixa.
pub proof fn law_offset_never_goes_negative(c: Clock, e: u64)
    ensures
        c.position_after_spec(e) >= 0,
        c.position_after_spec(e) == capped(c.raw_after(e) + c.offset()),
{
}

} // verus!
