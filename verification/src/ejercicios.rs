use vstd::prelude::*;

verus! {

/// The stage of life that a contract is in.
#[derive(Debug, Clone, Copy, PartialEq, Eq, Structural)]
pub enum ContractStatus {
    Active,
    Paused,
    Finalized,
}

/// A user with a name, a balance and a flag that says whether it is active.
#[derive(Debug, Clone, PartialEq, Eq)]
pub struct Usuario {
    pub nombre: String,
    pub balance: u128,
    pub activo: bool,
}

/// The largest quantity that a deposit may have.
pub const CANTIDAD_MAXIMA: u32 = 1000;

/// The bound that `contar_mayores` counts above.
pub const UMBRAL: u32 = 100;

/// How many of the numbers are greater than `UMBRAL`.
pub open spec fn mayores(numeros: Seq<u32>) -> nat
    decreases numeros.len(),
{
    if numeros.len() == 0 {
        0
    } else {
        mayores(numeros.drop_last()) + if numeros.last() > UMBRAL {
            1nat
        } else {
            0nat
        }
    }
}

/// There are never more numbers above the bound than there are numbers.
pub proof fn lemma_mayores_bound(numeros: Seq<u32>)
    ensures
        mayores(numeros) <= numeros.len(),
    decreases numeros.len(),
{
    if numeros.len() > 0 {
        lemma_mayores_bound(numeros.drop_last());
    }
}

/// Counts the numbers that are greater than 100.
pub fn contar_mayores(numeros: Vec<u32>) -> (contador: u32)
    requires
        numeros@.len() <= u32::MAX,
    ensures
        contador == mayores(numeros@),
{
    let mut contador: u32 = 0;
    let mut i: usize = 0;
    while i < numeros.len()
        invariant
            0 <= i <= numeros@.len(),
            numeros@.len() <= u32::MAX,
            contador == mayores(numeros@.take(i as int)),
            contador <= i,
        decreases numeros@.len() - i,
    {
        proof {
            assert(numeros@.take(i + 1).drop_last() =~= numeros@.take(i as int));
        }
        if numeros[i] > UMBRAL {
            contador += 1;
        }
        i += 1;
    }
    proof {
        assert(numeros@.take(i as int) =~= numeros@);
    }
    contador
}

/// Accepts a quantity between 1 and 1000 and says why any other is refused.
pub fn validar_cantidad(cantidad: u32) -> (resultado: Result<u32, String>)
    ensures
        cantidad == 0 ==> resultado is Err && resultado->Err_0@ == "Cantidad no puede ser 0"@,
        1 <= cantidad <= CANTIDAD_MAXIMA ==> resultado == Ok::<u32, String>(cantidad),
        cantidad > CANTIDAD_MAXIMA ==> resultado is Err && resultado->Err_0@
            == "Cantidad máxima: 1000"@,
{
    if cantidad == 0 {
        Err("Cantidad no puede ser 0".to_owned())
    } else if cantidad <= CANTIDAD_MAXIMA {
        Ok(cantidad)
    } else {
        Err("Cantidad máxima: 1000".to_owned())
    }
}

/// What a transfer of `amount` does to a sender's and a recipient's balance.
pub open spec fn transferido(balance_from: u128, balance_to: u128, amount: u128) -> Result<
    (u128, u128),
    Seq<char>,
> {
    if amount == 0 {
        Err("El monto debe ser mayor a 0"@)
    } else if balance_from < amount {
        Err("Balance insuficiente"@)
    } else if balance_to + amount > u128::MAX {
        Err("Error: overflow al sumar"@)
    } else {
        Ok(((balance_from - amount) as u128, (balance_to + amount) as u128))
    }
}

/// Decides a transfer of `amount` between two balances: the new balance of
/// the sender and of the recipient, or the reason why nothing moves.
pub fn transferir(balance_from: u128, balance_to: u128, amount: u128) -> (resultado: Result<
    (u128, u128),
    String,
>)
    ensures
        match (resultado, transferido(balance_from, balance_to, amount)) {
            (Ok(nuevos), Ok(esperados)) => nuevos == esperados,
            (Err(mensaje), Err(esperado)) => mensaje@ == esperado,
            _ => false,
        },
{
    if amount == 0 {
        return Err("El monto debe ser mayor a 0".to_owned());
    }
    if balance_from < amount {
        return Err("Balance insuficiente".to_owned());
    }
    let nuevo_balance_from = match balance_from.checked_sub(amount) {
        Some(resto) => resto,
        None => {
            return Err("Error: underflow al restar".to_owned());
        },
    };
    let nuevo_balance_to = match balance_to.checked_add(amount) {
        Some(suma) => suma,
        None => {
            return Err("Error: overflow al sumar".to_owned());
        },
    };
    Ok((nuevo_balance_from, nuevo_balance_to))
}

/// The counter after one more increment; a counter that was never stored
/// counts from zero.
pub fn increment(almacenado: Option<u32>) -> (contador: u32)
    requires
        almacenado.unwrap_or(0) < u32::MAX,
    ensures
        contador == almacenado.unwrap_or(0) + 1,
{
    let mut contador: u32 = match almacenado {
        Some(valor) => valor,
        None => 0,
    };
    contador += 1;
    contador
}

/// What is known of a token: its name, its symbol and its supply.
#[derive(Debug, Clone, PartialEq, Eq)]
pub struct TokenInfo {
    pub name: String,
    pub symbol: String,
    pub total_supply: u128,
}

/// Passes a name that is not empty; an empty one is not accepted.
pub fn verificar_nombre(name: &String)
    requires
        name@.len() > 0,
{
}

/// Passes a token whose supply is not zero; a supply of zero is not accepted.
pub fn verificar_supply(info: &TokenInfo)
    requires
        info.total_supply != 0,
{
}

/// Looks a token over by reference, name first and supply second, and hands
/// back its supply.
pub fn procesar_mal(info: &TokenInfo) -> (supply: u128)
    requires
        info.name@.len() > 0,
        info.total_supply != 0,
    ensures
        supply == info.total_supply,
{
    verificar_nombre(&info.name);
    verificar_supply(info);
    info.total_supply
}

/// A holder of small checks on the values that a contract keeps.
#[derive(Debug, Clone, Copy, PartialEq, Eq, Structural)]
pub struct EjemploStringSymbol;

impl EjemploStringSymbol {
    /// Passes a balance that is not negative; a negative one is not accepted.
    pub fn verificar_balance(balance: i128)
        requires
            balance >= 0,
    {
    }
}

} // verus!
