//! Records as the remote authority hands them over, in plain values.
use vstd::prelude::*;
use crate::store::{copy_opt_text, opt_text};

verus! {

/// One entry of the remote catalog.
#[derive(Clone, Debug)]
pub struct SupabaseMusica {
    pub id: String,
    pub codigo: String,
    pub artista: String,
    pub titulo: String,
    pub arquivo: String,
    pub nome_arquivo: Option<String>,
    pub tamanho: Option<i64>,
    pub duracao: Option<i64>,
    pub user_id: Option<String>,
}

pub struct SupabaseMusicaV {
    pub id: Seq<char>,
    pub codigo: Seq<char>,
    pub artista: Seq<char>,
    pub titulo: Seq<char>,
    pub arquivo: Seq<char>,
    pub nome_arquivo: Option<Seq<char>>,
    pub tamanho: Option<i64>,
    pub duracao: Option<i64>,
    pub user_id: Option<Seq<char>>,
}

impl View for SupabaseMusica {
    type V = SupabaseMusicaV;

    open spec fn view(&self) -> SupabaseMusicaV {
        SupabaseMusicaV {
            id: self.id@,
            codigo: self.codigo@,
            artista: self.artista@,
            titulo: self.titulo@,
            arquivo: self.arquivo@,
            nome_arquivo: opt_text(self.nome_arquivo),
            tamanho: self.tamanho,
            duracao: self.duracao,
            user_id: opt_text(self.user_id),
        }
    }
}

impl SupabaseMusica {
    pub fn copia(&self) -> (r: SupabaseMusica)
        ensures
            r@ == self@,
    {
        SupabaseMusica {
            id: self.id.clone(),
            codigo: self.codigo.clone(),
            artista: self.artista.clone(),
            titulo: self.titulo.clone(),
            arquivo: self.arquivo.clone(),
            nome_arquivo: copy_opt_text(&self.nome_arquivo),
            tamanho: self.tamanho,
            duracao: self.duracao,
            user_id: copy_opt_text(&self.user_id),
        }
    }
}

/// An activation key as the remote authority knows it. `limite_ms` is the
/// machine-bound allotment, in milliseconds.
#[derive(Clone, Debug)]
pub struct SupabaseChave {
    pub id: String,
    pub chave: String,
    pub tipo: String,
    pub status: String,
    pub data_expiracao: Option<String>,
    pub data_inicio: Option<String>,
    pub limite_ms: Option<i64>,
}

pub struct SupabaseChaveV {
    pub id: Seq<char>,
    pub chave: Seq<char>,
    pub tipo: Seq<char>,
    pub status: Seq<char>,
    pub data_expiracao: Option<Seq<char>>,
    pub data_inicio: Option<Seq<char>>,
    pub limite_ms: Option<i64>,
}

impl View for SupabaseChave {
    type V = SupabaseChaveV;

    open spec fn view(&self) -> SupabaseChaveV {
        SupabaseChaveV {
            id: self.id@,
            chave: self.chave@,
            tipo: self.tipo@,
            status: self.status@,
            data_expiracao: opt_text(self.data_expiracao),
            data_inicio: opt_text(self.data_inicio),
            limite_ms: self.limite_ms,
        }
    }
}

/// A subscription as the remote authority knows it.
#[derive(Clone, Debug)]
pub struct SupabaseAssinatura {
    pub id: String,
    pub user_id: String,
    pub status: String,
    pub data_fim: Option<String>,
}

} // verus!
