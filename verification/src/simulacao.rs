//! The population of particles and what one frame does to it.

use crate::fabrica::{particula_aleatoria, recem_criada};
use crate::particula::{Limites, Particula, Vetor, LIMITE_POSICAO};
use vstd::prelude::*;

verus! {

/// Number of particles made on the first frame.
pub const POPULACAO_INICIAL: usize = 250;

/// Longest time step, in seconds: a thirtieth of a second, rounded down.
pub const DT_MAXIMO: i64 = 33_333;

/// What a frame is given: the play area, the time since the last frame in
/// seconds, where the pointer is and which of its buttons are held.
#[derive(Clone, Copy, Debug, PartialEq, Eq)]
pub struct Entrada {
    pub limites: Limites,
    pub tempo: i64,
    pub cursor: Vetor,
    pub esquerdo: bool,
    pub direito: bool,
}

/// The particles, in the order in which they were made, and whether the
/// first frame has made the initial population.
pub struct Simulacao {
    particulas: Vec<Particula>,
    semente_feita: bool,
}

/// The time step of a frame that took `tempo` seconds: `tempo`, but no more
/// than `DT_MAXIMO`.
pub open spec fn passo_de_tempo(tempo: int) -> int {
    if tempo < DT_MAXIMO {
        tempo
    } else {
        DT_MAXIMO as int
    }
}

/// `p` was made for `limites` and then put at `cursor`.
pub open spec fn criada_em(p: Particula, limites: Limites, cursor: Vetor) -> bool {
    exists|q: Particula|
        recem_criada(q, limites) && p == (Particula {
            posicao: cursor,
            velocidade: q.velocidade,
            raio: q.raio,
            cor: q.cor,
        })
}

/// What one frame does to one particle: with the right button held the
/// pointer pulls it, and then it takes one step.
pub open spec fn mover(p: Particula, e: Entrada) -> Particula {
    let dt = passo_de_tempo(e.tempo as int);
    let q = if e.direito {
        p.atraida(e.cursor, dt)
    } else {
        p
    };
    q.apos_passo(dt, e.limites)
}

/// The particles that a frame starts from: the population, or none where the
/// initial population is still to be made.
pub open spec fn herdadas(antes: Seq<Particula>, semeada: bool) -> Seq<Particula> {
    if semeada {
        antes
    } else {
        Seq::empty()
    }
}

/// `novas` can be what a frame with input `e` makes: the initial population
/// where it was still to be made, each particle made for the play area, and
/// after it, with the left button held, one particle made at the pointer.
pub open spec fn feitas_no_quadro(novas: Seq<Particula>, semeada: bool, e: Entrada) -> bool {
    let iniciais: int = if semeada {
        0
    } else {
        POPULACAO_INICIAL as int
    };
    &&& novas.len() == iniciais + if e.esquerdo {
        1int
    } else {
        0int
    }
    &&& forall|i: int| 0 <= i < iniciais ==> recem_criada(#[trigger] novas[i], e.limites)
    &&& e.esquerdo ==> criada_em(novas[iniciais], e.limites, e.cursor)
}

/// Every particle of `s` that `limites` has room for lies inside `limites`.
pub open spec fn todas_dentro(s: Seq<Particula>, limites: Limites) -> bool {
    forall|i: int|
        0 <= i < s.len() && limites.comporta((#[trigger] s[i]).raio as int) ==> limites.contem(
            s[i].posicao,
            s[i].raio as int,
        )
}

impl Entrada {
    /// The play area is valid and, with a button held, the pointer is within
    /// `LIMITE_POSICAO`.
    pub open spec fn valida(self) -> bool {
        &&& self.limites.validos()
        &&& self.esquerdo || self.direito ==> self.cursor.cabe(LIMITE_POSICAO as int)
    }

    /// Whether the input is valid.
    pub fn e_valida(&self) -> (b: bool)
        ensures
            b == self.valida(),
    {
        self.limites.sao_validos() && (!(self.esquerdo || self.direito) || self.cursor.cabe_em(
            LIMITE_POSICAO,
        ))
    }
}

impl View for Simulacao {
    type V = Seq<Particula>;

    closed spec fn view(&self) -> Seq<Particula> {
        self.particulas@
    }
}

impl Simulacao {
    /// Every particle of the population is valid.
    #[verifier::type_invariant]
    spec fn todas_validas(self) -> bool {
        forall|i: int|
            0 <= i < self.particulas@.len() ==> (#[trigger] self.particulas@[i]).valida()
    }

    /// Whether the initial population has been made.
    pub closed spec fn semeada(&self) -> bool {
        self.semente_feita
    }

    /// A simulation with no particle, whose first frame is still to come.
    pub fn nova() -> (s: Simulacao)
        ensures
            s@ == Seq::<Particula>::empty(),
            !s.semeada(),
    {
        Simulacao { particulas: Vec::new(), semente_feita: false }
    }

    /// The particles, in the order in which they were made.
    pub fn particulas(&self) -> (v: &Vec<Particula>)
        ensures
            v@ == self@,
            forall|i: int| 0 <= i < v@.len() ==> (#[trigger] v@[i]).valida(),
    {
        proof {
            use_type_invariant(self);
        }
        &self.particulas
    }

    /// Whether the initial population has been made.
    pub fn foi_semeada(&self) -> (b: bool)
        ensures
            b == self.semeada(),
    {
        self.semente_feita
    }

    /// Takes the particles out, leaving none behind, so that they can be
    /// worked on and put back.
    fn retirar(&mut self) -> (todas: Vec<Particula>)
        ensures
            todas@ == old(self)@,
            forall|i: int| 0 <= i < todas@.len() ==> (#[trigger] todas@[i]).valida(),
            final(self)@ == Seq::<Particula>::empty(),
            final(self).semeada() == old(self).semeada(),
    {
        proof {
            use_type_invariant(&*self);
        }
        let mut todas: Vec<Particula> = Vec::new();
        core::mem::swap(&mut self.particulas, &mut todas);
        todas
    }

    /// On the first call, replaces the population by `POPULACAO_INICIAL`
    /// particles made for `limites`; later calls change nothing.
    pub fn semear(&mut self, limites: Limites)
        requires
            limites.validos(),
        ensures
            final(self).semeada(),
            old(self).semeada() ==> final(self)@ == old(self)@,
            !old(self).semeada() ==> final(self)@.len() == POPULACAO_INICIAL,
            !old(self).semeada() ==> forall|i: int|
                0 <= i < POPULACAO_INICIAL ==> recem_criada(#[trigger] final(self)@[i], limites),
    {
        if !self.semente_feita {
            let mut novas: Vec<Particula> = Vec::new();
            let mut i: usize = 0;
            while i < POPULACAO_INICIAL
                invariant
                    limites.validos(),
                    i <= POPULACAO_INICIAL,
                    novas@.len() == i,
                    forall|j: int|
                        0 <= j < i ==> recem_criada(#[trigger] novas@[j], limites)
                            && novas@[j].valida(),
                decreases POPULACAO_INICIAL - i,
            {
                novas.push(particula_aleatoria(limites));
                i += 1;
            }
            self.particulas = novas;
            self.semente_feita = true;
        }
    }

    /// Makes one particle for `limites`, puts it at `cursor` and adds it as
    /// the last of the population.
    pub fn criar(&mut self, limites: Limites, cursor: Vetor)
        requires
            limites.validos(),
            cursor.cabe(LIMITE_POSICAO as int),
        ensures
            final(self).semeada() == old(self).semeada(),
            final(self)@.len() == old(self)@.len() + 1,
            final(self)@.drop_last() == old(self)@,
            criada_em(final(self)@.last(), limites, cursor),
    {
        let q = particula_aleatoria(limites);
        let p = Particula { posicao: cursor, velocidade: q.velocidade, raio: q.raio, cor: q.cor };
        let mut todas = self.retirar();
        todas.push(p);
        self.particulas = todas;
    }

    /// The pointer at `cursor` pulls every particle for `dt` seconds.
    pub fn atrair_todas(&mut self, cursor: Vetor, dt: i64)
        requires
            cursor.cabe(LIMITE_POSICAO as int),
        ensures
            final(self).semeada() == old(self).semeada(),
            final(self)@.len() == old(self)@.len(),
            forall|i: int|
                0 <= i < old(self)@.len() ==> #[trigger] final(self)@[i]
                    == old(self)@[i].atraida(cursor, dt as int),
    {
        let mut todas = self.retirar();
        let ghost antes = todas@;
        let n = todas.len();
        let mut i: usize = 0;
        while i < n
            invariant
                cursor.cabe(LIMITE_POSICAO as int),
                i <= n,
                todas@.len() == n,
                antes.len() == n,
                forall|j: int|
                    0 <= j < i ==> #[trigger] todas@[j] == antes[j].atraida(cursor, dt as int),
                forall|j: int| i <= j < n ==> #[trigger] todas@[j] == antes[j],
                forall|j: int| 0 <= j < n ==> (#[trigger] todas@[j]).valida(),
            decreases n - i,
        {
            let mut p = todas[i];
            p.atrair(cursor, dt);
            todas.set(i, p);
            i += 1;
        }
        self.particulas = todas;
    }

    /// Every particle takes one step of `dt` seconds inside `limites`. After
    /// it, every particle that the play area has room for lies inside it.
    pub fn integrar_todas(&mut self, dt: i64, limites: Limites)
        requires
            limites.validos(),
        ensures
            final(self).semeada() == old(self).semeada(),
            final(self)@.len() == old(self)@.len(),
            forall|i: int|
                0 <= i < old(self)@.len() ==> #[trigger] final(self)@[i]
                    == old(self)@[i].apos_passo(dt as int, limites),
            todas_dentro(final(self)@, limites),
    {
        let mut todas = self.retirar();
        let ghost antes = todas@;
        let n = todas.len();
        let mut i: usize = 0;
        while i < n
            invariant
                limites.validos(),
                i <= n,
                todas@.len() == n,
                antes.len() == n,
                forall|j: int|
                    0 <= j < i ==> #[trigger] todas@[j] == antes[j].apos_passo(dt as int, limites),
                forall|j: int|
                    0 <= j < i && limites.comporta((#[trigger] todas@[j]).raio as int)
                        ==> limites.contem(todas@[j].posicao, todas@[j].raio as int),
                forall|j: int| i <= j < n ==> #[trigger] todas@[j] == antes[j],
                forall|j: int| 0 <= j < n ==> (#[trigger] todas@[j]).valida(),
            decreases n - i,
        {
            let mut p = todas[i];
            p.atualizar(dt, limites);
            todas.set(i, p);
            i += 1;
        }
        self.particulas = todas;
    }

    /// Moves every particle through one frame, whose time step is the time
    /// that the frame took but no more than `DT_MAXIMO`: with the right button
    /// held the pointer pulls them all, and then they all take one step.
    pub fn avancar(&mut self, entrada: Entrada)
        requires
            entrada.valida(),
        ensures
            final(self).semeada() == old(self).semeada(),
            final(self)@ == old(self)@.map_values(|p: Particula| mover(p, entrada)),
            todas_dentro(final(self)@, entrada.limites),
    {
        let dt = tempo_do_passo(entrada.tempo);
        if entrada.direito {
            self.atrair_todas(entrada.cursor, dt);
        }
        self.integrar_todas(dt, entrada.limites);
    }

    /// One frame. The first frame replaces the population by the initial one.
    /// With the left button held, one particle is made at the pointer. Then
    /// all particles, the new ones too, move as `avancar` says.
    pub fn quadro(&mut self, entrada: Entrada)
        requires
            entrada.valida(),
        ensures
            final(self).semeada(),
            exists|novas: Seq<Particula>|
                #![trigger feitas_no_quadro(novas, old(self).semeada(), entrada)]
                feitas_no_quadro(novas, old(self).semeada(), entrada) && final(self)@ == (
                herdadas(old(self)@, old(self).semeada()) + novas).map_values(
                    |p: Particula| mover(p, entrada),
                ),
            todas_dentro(final(self)@, entrada.limites),
    {
        let ghost base = herdadas(self@, self.semeada());
        self.semear(entrada.limites);
        if entrada.esquerdo {
            self.criar(entrada.limites, entrada.cursor);
        }
        let ghost novas = self@.subrange(base.len() as int, self@.len() as int);
        proof {
            assert(feitas_no_quadro(novas, old(self).semeada(), entrada));
        }
        self.avancar(entrada);
    }
}

/// The time step of a frame that took `tempo` seconds.
pub fn tempo_do_passo(tempo: i64) -> (dt: i64)
    ensures
        dt == passo_de_tempo(tempo as int),
{
    if tempo < DT_MAXIMO {
        tempo
    } else {
        DT_MAXIMO
    }
}

} // verus!
