use vstd::prelude::*;
use crate::address::Address;
use crate::auth::Authorization;
use crate::contadores::CounterTable;
use crate::saludos::GreetingTable;
use crate::state::byte_len;
use crate::storage::{ops_view, OpView, StorageOp, Value, ValueView};

verus! {

/// The longest name that is greeted where no other limit was set, in bytes.
pub const LIMITE_POR_DEFECTO: u32 = 32;

/// The lease that the greeter asks for with each renewal, in ledgers: renewed
/// where fewer than this many are left, to last this many.
pub const LEASE: u32 = 100;

/// Why the greeter refused a call.
#[derive(Copy, Clone, Debug, PartialEq, Eq, Structural)]
pub enum Error {
    NombreVacio,
    NombreMuyLargo,
    NoAutorizado,
    NoInicializado,
}

/// The keys under which the greeter keeps its records.
#[derive(Debug, Clone, PartialEq, Eq, Hash)]
pub enum DataKey {
    Admin,
    ContadorSaludos,
    UltimoSaludo(Address),
    ContadorPorUsuario(Address),
    LimiteCaracteres,
}

/// What a `DataKey` is as a mathematical value.
pub enum KeyView {
    Admin,
    ContadorSaludos,
    UltimoSaludo(Seq<char>),
    ContadorPorUsuario(Seq<char>),
    LimiteCaracteres,
}

impl View for DataKey {
    type V = KeyView;

    open spec fn view(&self) -> KeyView {
        match self {
            DataKey::Admin => KeyView::Admin,
            DataKey::ContadorSaludos => KeyView::ContadorSaludos,
            DataKey::UltimoSaludo(u) => KeyView::UltimoSaludo(u@),
            DataKey::ContadorPorUsuario(u) => KeyView::ContadorPorUsuario(u@),
            DataKey::LimiteCaracteres => KeyView::LimiteCaracteres,
        }
    }
}

/// The greeter as a mathematical value. A record that was never written is
/// absent: `None`, or no key of the table. `journal` lists, oldest first, the
/// storage requests that the calls have made so far.
pub struct HelloState {
    pub admin: Option<Seq<char>>,
    pub contador: Option<u32>,
    pub limite: Option<u32>,
    pub contadores: Map<Seq<char>, u32>,
    pub saludos: Map<Seq<char>, Seq<char>>,
    pub journal: Seq<OpView<KeyView>>,
}

/// The greeter before anything happened to it.
pub open spec fn vacio() -> HelloState {
    HelloState {
        admin: None,
        contador: None,
        limite: None,
        contadores: Map::empty(),
        saludos: Map::empty(),
        journal: Seq::empty(),
    }
}

/// How many greetings were made since the counter was last reset.
pub open spec fn contador_de(s: HelloState) -> u32 {
    match s.contador {
        Some(c) => c,
        None => 0,
    }
}

/// The longest name that is greeted, in bytes.
pub open spec fn limite_de(s: HelloState) -> u32 {
    match s.limite {
        Some(l) => l,
        None => LIMITE_POR_DEFECTO,
    }
}

/// How often `usuario` was greeted.
pub open spec fn contador_de_usuario(s: HelloState, usuario: Seq<char>) -> u32 {
    if s.contadores.contains_key(usuario) {
        s.contadores[usuario]
    } else {
        0
    }
}

/// What `initialize` comes to: refused where an administrator is recorded.
pub open spec fn initialize_result(s: HelloState) -> Result<(), Error> {
    if s.admin is Some {
        Err(Error::NoInicializado)
    } else {
        Ok(())
    }
}

/// The state after a successful `initialize`: the administrator is recorded,
/// the count starts at zero and the limit at its default; all three are written
/// into the ephemeral tier and its lease is renewed.
pub open spec fn initialize_effect(s: HelloState, admin: Seq<char>) -> HelloState {
    HelloState {
        admin: Some(admin),
        contador: Some(0),
        limite: Some(LIMITE_POR_DEFECTO),
        journal: s.journal + seq![
            OpView::InstanceSet(KeyView::Admin, ValueView::Identity(admin)),
            OpView::InstanceSet(KeyView::ContadorSaludos, ValueView::Number(0)),
            OpView::InstanceSet(KeyView::LimiteCaracteres, ValueView::Number(LIMITE_POR_DEFECTO)),
            OpView::InstanceExtend(LEASE, LEASE),
        ],
        ..s
    }
}

/// What `hello` comes to: an empty name and one longer than the limit are
/// refused, in this order.
pub open spec fn hello_result(s: HelloState, nombre: Seq<char>) -> Result<(), Error> {
    if byte_len(nombre) == 0 {
        Err(Error::NombreVacio)
    } else if byte_len(nombre) > limite_de(s) {
        Err(Error::NombreMuyLargo)
    } else {
        Ok(())
    }
}

/// The state after a successful `hello`: both counts are one higher and the
/// name is remembered. The count is written, then the user's count and the
/// name, each with its lease renewed, and last the lease of the ephemeral tier
/// is renewed.
pub open spec fn hello_effect(s: HelloState, usuario: Seq<char>, nombre: Seq<char>)
    -> HelloState {
    HelloState {
        contador: Some((contador_de(s) + 1) as u32),
        contadores: s.contadores.insert(usuario, (contador_de_usuario(s, usuario) + 1) as u32),
        saludos: s.saludos.insert(usuario, nombre),
        journal: s.journal + seq![
            OpView::InstanceSet(
                KeyView::ContadorSaludos,
                ValueView::Number((contador_de(s) + 1) as u32),
            ),
            OpView::PersistentSet(
                KeyView::ContadorPorUsuario(usuario),
                ValueView::Number((contador_de_usuario(s, usuario) + 1) as u32),
            ),
            OpView::PersistentExtend(KeyView::ContadorPorUsuario(usuario), LEASE, LEASE),
            OpView::PersistentSet(KeyView::UltimoSaludo(usuario), ValueView::Text(nombre)),
            OpView::PersistentExtend(KeyView::UltimoSaludo(usuario), LEASE, LEASE),
            OpView::InstanceExtend(LEASE, LEASE),
        ],
        ..s
    }
}

/// The state after the count was set back: zero is written as the count.
pub open spec fn reset_effect(s: HelloState) -> HelloState {
    HelloState {
        contador: Some(0),
        journal: s.journal.push(
            OpView::InstanceSet(KeyView::ContadorSaludos, ValueView::Number(0)),
        ),
        ..s
    }
}

/// The state after the office was handed over: the new administrator is
/// written and the lease of the ephemeral tier is renewed.
pub open spec fn transfer_admin_effect(s: HelloState, nuevo_admin: Seq<char>) -> HelloState {
    HelloState {
        admin: Some(nuevo_admin),
        journal: s.journal + seq![
            OpView::InstanceSet(KeyView::Admin, ValueView::Identity(nuevo_admin)),
            OpView::InstanceExtend(LEASE, LEASE),
        ],
        ..s
    }
}

/// The state after the limit was set: it is written and the lease of the
/// ephemeral tier is renewed.
pub open spec fn set_limite_effect(s: HelloState, limite: u32) -> HelloState {
    HelloState {
        limite: Some(limite),
        journal: s.journal + seq![
            OpView::InstanceSet(KeyView::LimiteCaracteres, ValueView::Number(limite)),
            OpView::InstanceExtend(LEASE, LEASE),
        ],
        ..s
    }
}

/// What a call that only the administrator may make comes to.
pub open spec fn admin_result(s: HelloState, caller: Seq<char>) -> Result<(), Error> {
    if s.admin is None {
        Err(Error::NoInicializado)
    } else if s.admin != Some(caller) {
        Err(Error::NoAutorizado)
    } else {
        Ok(())
    }
}

/// The state that a call leaves: its effect where it succeeds, and the state
/// it found where it fails.
pub open spec fn settled(before: HelloState, result: Result<(), Error>, effect: HelloState)
    -> HelloState {
    if result is Ok {
        effect
    } else {
        before
    }
}

/// Whether `value` is of the kind that the store keeps under `key`.
pub open spec fn restorable(key: KeyView, value: ValueView) -> bool {
    match (key, value) {
        (KeyView::Admin, ValueView::Identity(_)) => true,
        (KeyView::ContadorSaludos, ValueView::Number(_)) => true,
        (KeyView::UltimoSaludo(_), ValueView::Text(_)) => true,
        (KeyView::ContadorPorUsuario(_), ValueView::Number(_)) => true,
        (KeyView::LimiteCaracteres, ValueView::Number(_)) => true,
        _ => false,
    }
}

/// The state in which the record `value` under `key`, as it was read from
/// the store, has taken its place. No storage request is made for it.
pub open spec fn restored(s: HelloState, key: KeyView, value: ValueView) -> HelloState {
    match (key, value) {
        (KeyView::Admin, ValueView::Identity(a)) => HelloState { admin: Some(a), ..s },
        (KeyView::ContadorSaludos, ValueView::Number(n)) => HelloState { contador: Some(n), ..s },
        (KeyView::UltimoSaludo(u), ValueView::Text(t)) => HelloState {
            saludos: s.saludos.insert(u, t),
            ..s
        },
        (KeyView::ContadorPorUsuario(u), ValueView::Number(n)) => HelloState {
            contadores: s.contadores.insert(u, n),
            ..s
        },
        (KeyView::LimiteCaracteres, ValueView::Number(n)) => HelloState { limite: Some(n), ..s },
        _ => s,
    }
}

/// A greeter: it greets users by name, counts the greetings, and lets its
/// administrator reset the count, set the longest name and hand over the office.
#[derive(Debug)]
pub struct HelloContract {
    admin: Option<Address>,
    contador: Option<u32>,
    limite: Option<u32>,
    contadores: CounterTable,
    saludos: GreetingTable,
    journal: Vec<StorageOp<DataKey>>,
}

impl View for HelloContract {
    type V = HelloState;

    closed spec fn view(&self) -> HelloState {
        HelloState {
            admin: match self.admin {
                Some(a) => Some(a@),
                None => None,
            },
            contador: self.contador,
            limite: self.limite,
            contadores: self.contadores@,
            saludos: self.saludos@,
            journal: ops_view(self.journal@),
        }
    }
}

impl HelloContract {
    /// The tables of the greeter are well formed.
    pub closed spec fn wf(&self) -> bool {
        &&& self.contadores.wf()
        &&& self.saludos.wf()
    }

    /// The greeter before anything happened to it.
    pub fn new() -> (contract: HelloContract)
        ensures
            contract.wf(),
            contract@ == vacio(),
    {
        let contract = HelloContract {
            admin: None,
            contador: None,
            limite: None,
            contadores: CounterTable::new(),
            saludos: GreetingTable::new(),
            journal: Vec::new(),
        };
        assert(contract@.journal =~= Seq::<OpView<KeyView>>::empty());
        contract
    }

    fn record(&mut self, op: StorageOp<DataKey>)
        requires
            old(self).wf(),
        ensures
            final(self).wf(),
            final(self)@ == (HelloState {
                journal: old(self)@.journal.push(op@),
                ..old(self)@
            }),
    {
        self.journal.push(op);
        assert(ops_view(self.journal@) =~= ops_view(old(self).journal@).push(op@));
    }

    /// Hands over the storage requests made since the last call, oldest first,
    /// and forgets them.
    pub fn take_journal(&mut self) -> (ops: Vec<StorageOp<DataKey>>)
        requires
            old(self).wf(),
        ensures
            final(self).wf(),
            ops_view(ops@) == old(self)@.journal,
            final(self)@ == (HelloState { journal: Seq::empty(), ..old(self)@ }),
    {
        let mut ops: Vec<StorageOp<DataKey>> = Vec::new();
        core::mem::swap(&mut self.journal, &mut ops);
        assert(ops_view(self.journal@) =~= Seq::<OpView<KeyView>>::empty());
        ops
    }

    /// Puts a record in its place as it was read from the store. A value of
    /// the wrong kind is refused and changes nothing.
    pub fn restore(&mut self, key: &DataKey, value: &Value) -> (accepted: bool)
        requires
            old(self).wf(),
        ensures
            final(self).wf(),
            accepted == restorable(key@, value@),
            final(self)@ == (if accepted {
                restored(old(self)@, key@, value@)
            } else {
                old(self)@
            }),
    {
        match key {
            DataKey::Admin => match value {
                Value::Identity(admin) => {
                    self.admin = Some(admin.clone());
                    true
                },
                _ => false,
            },
            DataKey::ContadorSaludos => match value {
                Value::Number(n) => {
                    self.contador = Some(*n);
                    true
                },
                _ => false,
            },
            DataKey::UltimoSaludo(usuario) => match value {
                Value::Text(nombre) => {
                    self.saludos.set(usuario, nombre.clone());
                    true
                },
                _ => false,
            },
            DataKey::ContadorPorUsuario(usuario) => match value {
                Value::Number(n) => {
                    self.contadores.set(usuario, *n);
                    true
                },
                _ => false,
            },
            DataKey::LimiteCaracteres => match value {
                Value::Number(n) => {
                    self.limite = Some(*n);
                    true
                },
                _ => false,
            },
        }
    }

    /// Sets the greeter up: records the administrator, starts the count at
    /// zero and the longest name at 32 bytes. Refused where an administrator
    /// is recorded already.
    pub fn initialize(&mut self, admin: Address) -> (result: Result<(), Error>)
        requires
            old(self).wf(),
        ensures
            final(self).wf(),
            result == initialize_result(old(self)@),
            final(self)@ == settled(old(self)@, result, initialize_effect(old(self)@, admin@)),
    {
        if self.admin.is_some() {
            return Err(Error::NoInicializado);
        }
        self.record(StorageOp::InstanceSet(DataKey::Admin, Value::Identity(admin.clone())));
        self.record(StorageOp::InstanceSet(DataKey::ContadorSaludos, Value::Number(0)));
        self.record(
            StorageOp::InstanceSet(DataKey::LimiteCaracteres, Value::Number(LIMITE_POR_DEFECTO)),
        );
        self.record(StorageOp::InstanceExtend(LEASE, LEASE));
        self.admin = Some(admin);
        self.contador = Some(0);
        self.limite = Some(LIMITE_POR_DEFECTO);
        assert(self@.journal =~= initialize_effect(old(self)@, admin@).journal);
        Ok(())
    }

    /// Whether `nombre` would be greeted: an empty name and one longer than
    /// the limit are refused, in this order.
    pub fn validar_nombre(&self, nombre: &String) -> (result: Result<(), Error>)
        ensures
            result == hello_result(self@, nombre@),
    {
        let largo = nombre.as_str().as_bytes().len();
        if largo == 0 {
            return Err(Error::NombreVacio);
        }
        let limite = self.get_limite();
        if largo > limite as usize {
            return Err(Error::NombreMuyLargo);
        }
        Ok(())
    }

    /// Greets `usuario` by `nombre`: counts the greeting, for all and for the
    /// user, and remembers the name. An empty name and one longer than the
    /// limit are refused, in this order.
    ///
    /// The user must have authorized the call, and where the name is
    /// accepted neither count may be at its maximum.
    pub fn hello(
        &mut self,
        auth: &Authorization,
        usuario: Address,
        nombre: String,
    ) -> (result: Result<String, Error>)
        requires
            old(self).wf(),
            auth@.contains(usuario@),
            hello_result(old(self)@, nombre@) is Ok ==> contador_de(old(self)@) < u32::MAX
                && contador_de_usuario(old(self)@, usuario@) < u32::MAX,
        ensures
            final(self).wf(),
            match result {
                Ok(saludo) => hello_result(old(self)@, nombre@) is Ok && saludo@ == "Hola"@,
                Err(e) => hello_result(old(self)@, nombre@) == Err::<(), Error>(e),
            },
            final(self)@ == settled(
                old(self)@,
                hello_result(old(self)@, nombre@),
                hello_effect(old(self)@, usuario@, nombre@),
            ),
    {
        match self.validar_nombre(&nombre) {
            Err(e) => {
                return Err(e);
            },
            Ok(()) => {},
        }
        let contador = self.get_contador() + 1;
        let contador_usuario = self.get_contador_usuario(&usuario) + 1;
        self.record(StorageOp::InstanceSet(DataKey::ContadorSaludos, Value::Number(contador)));
        self.record(
            StorageOp::PersistentSet(
                DataKey::ContadorPorUsuario(usuario.clone()),
                Value::Number(contador_usuario),
            ),
        );
        self.record(
            StorageOp::PersistentExtend(DataKey::ContadorPorUsuario(usuario.clone()), LEASE, LEASE),
        );
        self.record(
            StorageOp::PersistentSet(
                DataKey::UltimoSaludo(usuario.clone()),
                Value::Text(nombre.clone()),
            ),
        );
        self.record(
            StorageOp::PersistentExtend(DataKey::UltimoSaludo(usuario.clone()), LEASE, LEASE),
        );
        self.record(StorageOp::InstanceExtend(LEASE, LEASE));
        self.contador = Some(contador);
        self.contadores.set(&usuario, contador_usuario);
        self.saludos.set(&usuario, nombre);
        assert(self@.journal =~= hello_effect(old(self)@, usuario@, nombre@).journal);
        Ok("Hola".to_owned())
    }

    /// How many greetings were made since the count was last reset.
    pub fn get_contador(&self) -> (contador: u32)
        ensures
            contador == contador_de(self@),
    {
        match self.contador {
            Some(c) => c,
            None => 0,
        }
    }

    /// The name that `usuario` was last greeted by, if it ever was.
    pub fn get_ultimo_saludo(&self, usuario: &Address) -> (saludo: Option<String>)
        requires
            self.wf(),
        ensures
            saludo is Some == self@.saludos.contains_key(usuario@),
            saludo is Some ==> saludo->Some_0@ == self@.saludos[usuario@],
    {
        self.saludos.get(usuario)
    }

    /// How often `usuario` was greeted.
    pub fn get_contador_usuario(&self, usuario: &Address) -> (contador: u32)
        requires
            self.wf(),
        ensures
            contador == contador_de_usuario(self@, usuario@),
    {
        match self.contadores.get(usuario) {
            Some(c) => c,
            None => 0,
        }
    }

    /// Sets the count of greetings back to zero. Only the administrator may.
    pub fn reset_contador(&mut self, caller: &Address) -> (result: Result<(), Error>)
        requires
            old(self).wf(),
        ensures
            final(self).wf(),
            result == admin_result(old(self)@, caller@),
            final(self)@ == settled(
                old(self)@,
                result,
                reset_effect(old(self)@),
            ),
    {
        match &self.admin {
            None => {
                return Err(Error::NoInicializado);
            },
            Some(admin) => {
                if !caller.same_as(admin) {
                    return Err(Error::NoAutorizado);
                }
            },
        }
        self.record(StorageOp::InstanceSet(DataKey::ContadorSaludos, Value::Number(0)));
        self.contador = Some(0);
        Ok(())
    }

    /// Hands the office of administrator over to `nuevo_admin`. Only the
    /// administrator may, and must have authorized the call.
    pub fn transfer_admin(
        &mut self,
        auth: &Authorization,
        caller: &Address,
        nuevo_admin: Address,
    ) -> (result: Result<(), Error>)
        requires
            old(self).wf(),
            auth@.contains(caller@),
        ensures
            final(self).wf(),
            result == admin_result(old(self)@, caller@),
            final(self)@ == settled(
                old(self)@,
                result,
                transfer_admin_effect(old(self)@, nuevo_admin@),
            ),
    {
        match &self.admin {
            None => {
                return Err(Error::NoInicializado);
            },
            Some(admin) => {
                if !caller.same_as(admin) {
                    return Err(Error::NoAutorizado);
                }
            },
        }
        self.record(StorageOp::InstanceSet(DataKey::Admin, Value::Identity(nuevo_admin.clone())));
        self.record(StorageOp::InstanceExtend(LEASE, LEASE));
        self.admin = Some(nuevo_admin);
        assert(self@.journal =~= transfer_admin_effect(old(self)@, nuevo_admin@).journal);
        Ok(())
    }

    /// Sets the longest name that is greeted, in bytes. Only the
    /// administrator may, and must have authorized the call.
    pub fn set_limite(
        &mut self,
        auth: &Authorization,
        caller: &Address,
        limite: u32,
    ) -> (result: Result<(), Error>)
        requires
            old(self).wf(),
            auth@.contains(caller@),
        ensures
            final(self).wf(),
            result == admin_result(old(self)@, caller@),
            final(self)@ == settled(
                old(self)@,
                result,
                set_limite_effect(old(self)@, limite),
            ),
    {
        match &self.admin {
            None => {
                return Err(Error::NoInicializado);
            },
            Some(admin) => {
                if !caller.same_as(admin) {
                    return Err(Error::NoAutorizado);
                }
            },
        }
        self.record(StorageOp::InstanceSet(DataKey::LimiteCaracteres, Value::Number(limite)));
        self.record(StorageOp::InstanceExtend(LEASE, LEASE));
        self.limite = Some(limite);
        assert(self@.journal =~= set_limite_effect(old(self)@, limite).journal);
        Ok(())
    }

    /// The longest name that is greeted, in bytes.
    pub fn get_limite(&self) -> (limite: u32)
        ensures
            limite == limite_de(self@),
    {
        match self.limite {
            Some(l) => l,
            None => LIMITE_POR_DEFECTO,
        }
    }
}

} // verus!
