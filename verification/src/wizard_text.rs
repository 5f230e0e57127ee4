//! What the setup wizard says, in the language it was asked to say it in.
//!
//! Kept apart from the questions themselves so the flow reads as a flow rather
//! than as a table of translations. The strings state consequences, not
//! categories: "1–2 s becomes 180 s" rather than "reranking", because the
//! number is the argument.

use vstd::prelude::*;
use crate::config::Language;

verus! {

/// Every line the wizard can print, resolved for one language.
pub struct Text {
    pub lang: Language,
}

/// The English or the Spanish text, by language.
pub open spec fn in_lang(lang: Language, en: Seq<char>, es: Seq<char>) -> Seq<char> {
    match lang {
        Language::En => en,
        Language::Es => es,
    }
}

impl Text {
    /// The wizard's text in `lang`.
    pub fn new(lang: Language) -> (t: Self)
        ensures
            t.lang == lang,
    {
        Text { lang }
    }

    fn pick(&self, en: &'static str, es: &'static str) -> (r: &'static str)
        ensures
            r@ == in_lang(self.lang, en@, es@),
    {
        match self.lang {
            Language::En => en,
            Language::Es => es,
        }
    }

    // the language question itself

    /// `Language · Idioma`
    pub fn language_question() -> (r: &'static str)
        ensures
            r@ == "Language · Idioma"@,
    {
        "Language · Idioma"
    }

    /// `English`
    pub fn language_en() -> (r: &'static str)
        ensures
            r@ == "English"@,
    {
        "English"
    }

    /// `Español`
    pub fn language_es() -> (r: &'static str)
        ensures
            r@ == "Español"@,
    {
        "Español"
    }

    /// `for these questions, and for summaries · para estas preguntas y los resúmenes`
    pub fn language_note() -> (r: &'static str)
        ensures
            r@ == "for these questions, and for summaries · para estas preguntas y los resúmenes"@,
    {
        "for these questions, and for summaries · para estas preguntas y los resúmenes"
    }

    // copying an existing configuration

    /// `Start from another project's configuration?`, or `¿Partir de la configuración de otro proyecto?`.
    pub fn copy_question(&self) -> (r: &'static str)
        ensures
            r@ == in_lang(self.lang, "Start from another project's configuration?"@, "¿Partir de la configuración de otro proyecto?"@),
    {
        self.pick("Start from another project's configuration?", "¿Partir de la configuración de otro proyecto?")
    }

    /// `Configure this one from scratch`, or `Configurar este desde cero`.
    pub fn copy_configure(&self) -> (r: &'static str)
        ensures
            r@ == in_lang(self.lang, "Configure this one from scratch"@, "Configurar este desde cero"@),
    {
        self.pick("Configure this one from scratch", "Configurar este desde cero")
    }

    /// `copies everything but the name, path and group`, or `copia todo menos el nombre, la ruta y el grupo`.
    pub fn copy_note(&self) -> (r: &'static str)
        ensures
            r@ == in_lang(self.lang, "copies everything but the name, path and group"@, "copia todo menos el nombre, la ruta y el grupo"@),
    {
        self.pick("copies everything but the name, path and group", "copia todo menos el nombre, la ruta y el grupo")
    }

    // storage

    /// `── Storage ──`, or `── Almacenamiento ──`.
    pub fn storage_heading(&self) -> (r: &'static str)
        ensures
            r@ == in_lang(self.lang, "── Storage ──"@, "── Almacenamiento ──"@),
    {
        self.pick("── Storage ──", "── Almacenamiento ──")
    }

    /// `Index directory (blank = inside the repository)`, or `Directorio del índice (vacío = dentro del repositorio)`.
    pub fn index_dir_question(&self) -> (r: &'static str)
        ensures
            r@ == in_lang(self.lang, "Index directory (blank = inside the repository)"@, "Directorio del índice (vacío = dentro del repositorio)"@),
    {
        self.pick("Index directory (blank = inside the repository)", "Directorio del índice (vacío = dentro del repositorio)")
    }

    /// `The index is a build artefact — large, binary, rebuilt from the repository — so it lives inside it by default, and is git-ignored.`, or `El índice es un artefacto de build — grande, binario, se reconstruye desde el repositorio — así que vive adentro por defecto, y está en el gitignore.`.
    pub fn index_dir_note(&self) -> (r: &'static str)
        ensures
            r@ == in_lang(self.lang, "The index is a build artefact — large, binary, rebuilt from the repository — so it lives inside it by default, and is git-ignored."@, "El índice es un artefacto de build — grande, binario, se reconstruye desde el repositorio — así que vive adentro por defecto, y está en el gitignore."@),
    {
        self.pick("The index is a build artefact — large, binary, rebuilt from the repository — so it lives inside it by default, and is git-ignored.", "El índice es un artefacto de build — grande, binario, se reconstruye desde el repositorio — así que vive adentro por defecto, y está en el gitignore.")
    }

    /// `Vector index`, or `Índice vectorial`.
    pub fn hnsw_question(&self) -> (r: &'static str)
        ensures
            r@ == in_lang(self.lang, "Vector index"@, "Índice vectorial"@),
    {
        self.pick("Vector index", "Índice vectorial")
    }

    /// `HNSW — 49 ms per search`, or `HNSW — 49 ms por búsqueda`.
    pub fn hnsw_on(&self) -> (r: &'static str)
        ensures
            r@ == in_lang(self.lang, "HNSW — 49 ms per search"@, "HNSW — 49 ms por búsqueda"@),
    {
        self.pick("HNSW — 49 ms per search", "HNSW — 49 ms por búsqueda")
    }

    /// `None — 84 ms, exact`, or `Ninguno — 84 ms, exacta`.
    pub fn hnsw_off(&self) -> (r: &'static str)
        ensures
            r@ == in_lang(self.lang, "None — 84 ms, exact"@, "Ninguno — 84 ms, exacta"@),
    {
        self.pick("None — 84 ms, exact", "Ninguno — 84 ms, exacta")
    }

    /// `measured on 17k vectors; recall was unchanged`, or `medido sobre 17k vectores; el recall no cambió`.
    pub fn hnsw_note(&self) -> (r: &'static str)
        ensures
            r@ == in_lang(self.lang, "measured on 17k vectors; recall was unchanged"@, "medido sobre 17k vectores; el recall no cambió"@),
    {
        self.pick("measured on 17k vectors; recall was unchanged", "medido sobre 17k vectores; el recall no cambió")
    }

    /// `Distance metric`, or `Métrica de distancia`.
    pub fn metric_question(&self) -> (r: &'static str)
        ensures
            r@ == in_lang(self.lang, "Distance metric"@, "Métrica de distancia"@),
    {
        self.pick("Distance metric", "Métrica de distancia")
    }

    /// `always correct`, or `siempre correcta`.
    pub fn metric_cosine_note(&self) -> (r: &'static str)
        ensures
            r@ == in_lang(self.lang, "always correct"@, "siempre correcta"@),
    {
        self.pick("always correct", "siempre correcta")
    }

    /// `cheaper, but only equivalent for normalized embeddings`, or `más barata, pero equivalente solo con embeddings normalizados`.
    pub fn metric_ip_note(&self) -> (r: &'static str)
        ensures
            r@ == in_lang(self.lang, "cheaper, but only equivalent for normalized embeddings"@, "más barata, pero equivalente solo con embeddings normalizados"@),
    {
        self.pick("cheaper, but only equivalent for normalized embeddings", "más barata, pero equivalente solo con embeddings normalizados")
    }

    /// `Keyword index (BM25)`, or `Índice de palabras clave (BM25)`.
    pub fn fts_question(&self) -> (r: &'static str)
        ensures
            r@ == in_lang(self.lang, "Keyword index (BM25)"@, "Índice de palabras clave (BM25)"@),
    {
        self.pick("Keyword index (BM25)", "Índice de palabras clave (BM25)")
    }

    /// `lets `search --keyword` match exact identifiers`, or `permite que `search --keyword` encuentre identificadores exactos`.
    pub fn fts_note(&self) -> (r: &'static str)
        ensures
            r@ == in_lang(self.lang, "lets `search --keyword` match exact identifiers"@, "permite que `search --keyword` encuentre identificadores exactos"@),
    {
        self.pick("lets `search --keyword` match exact identifiers", "permite que `search --keyword` encuentre identificadores exactos")
    }

    // indexing

    /// `── Indexing ──`, or `── Indexado ──`.
    pub fn indexing_heading(&self) -> (r: &'static str)
        ensures
            r@ == in_lang(self.lang, "── Indexing ──"@, "── Indexado ──"@),
    {
        self.pick("── Indexing ──", "── Indexado ──")
    }

    /// `Exclude patterns`, or `Patrones a excluir`.
    pub fn exclude_question(&self) -> (r: &'static str)
        ensures
            r@ == in_lang(self.lang, "Exclude patterns"@, "Patrones a excluir"@),
    {
        self.pick("Exclude patterns", "Patrones a excluir")
    }

    /// `Anything git already ignores is excluded. This is for code git tracks but that is not worth searching — .gitignore syntax, comma-separated.`, or `Lo que git ya ignora queda afuera. Esto es para código que git sí versiona pero que no vale la pena buscar — sintaxis de .gitignore, separados por coma.`.
    pub fn exclude_note(&self) -> (r: &'static str)
        ensures
            r@ == in_lang(self.lang, "Anything git already ignores is excluded. This is for code git tracks but that is not worth searching — .gitignore syntax, comma-separated."@, "Lo que git ya ignora queda afuera. Esto es para código que git sí versiona pero que no vale la pena buscar — sintaxis de .gitignore, separados por coma."@),
    {
        self.pick("Anything git already ignores is excluded. This is for code git tracks but that is not worth searching — .gitignore syntax, comma-separated.", "Lo que git ya ignora queda afuera. Esto es para código que git sí versiona pero que no vale la pena buscar — sintaxis de .gitignore, separados por coma.")
    }

    // memories

    /// `── Memories ──`, or `── Memorias ──`.
    pub fn memories_heading(&self) -> (r: &'static str)
        ensures
            r@ == in_lang(self.lang, "── Memories ──"@, "── Memorias ──"@),
    {
        self.pick("── Memories ──", "── Memorias ──")
    }

    /// `Group for this repository`, or `Grupo de este repositorio`.
    pub fn group_question(&self) -> (r: &'static str)
        ensures
            r@ == in_lang(self.lang, "Group for this repository"@, "Grupo de este repositorio"@),
    {
        self.pick("Group for this repository", "Grupo de este repositorio")
    }

    /// `None — this repository alone`, or `Ninguno — solo este repositorio`.
    pub fn group_none(&self) -> (r: &'static str)
        ensures
            r@ == in_lang(self.lang, "None — this repository alone"@, "Ninguno — solo este repositorio"@),
    {
        self.pick("None — this repository alone", "Ninguno — solo este repositorio")
    }

    /// `A new group…`, or `Un grupo nuevo…`.
    pub fn group_new(&self) -> (r: &'static str)
        ensures
            r@ == in_lang(self.lang, "A new group…"@, "Un grupo nuevo…"@),
    {
        self.pick("A new group…", "Un grupo nuevo…")
    }

    /// `memories shared between the repositories of one product`, or `memorias compartidas entre los repositorios de un producto`.
    pub fn group_note(&self) -> (r: &'static str)
        ensures
            r@ == in_lang(self.lang, "memories shared between the repositories of one product"@, "memorias compartidas entre los repositorios de un producto"@),
    {
        self.pick("memories shared between the repositories of one product", "memorias compartidas entre los repositorios de un producto")
    }

    /// `Name of the new group`, or `Nombre del grupo nuevo`.
    pub fn group_name_question(&self) -> (r: &'static str)
        ensures
            r@ == in_lang(self.lang, "Name of the new group"@, "Nombre del grupo nuevo"@),
    {
        self.pick("Name of the new group", "Nombre del grupo nuevo")
    }

    // search quality

    /// `── Search quality ──`, or `── Calidad de búsqueda ──`.
    pub fn rerank_heading(&self) -> (r: &'static str)
        ensures
            r@ == in_lang(self.lang, "── Search quality ──"@, "── Calidad de búsqueda ──"@),
    {
        self.pick("── Search quality ──", "── Calidad de búsqueda ──")
    }

    /// `Reranking`, or `Reordenamiento`.
    pub fn rerank_question(&self) -> (r: &'static str)
        ensures
            r@ == in_lang(self.lang, "Reranking"@, "Reordenamiento"@),
    {
        self.pick("Reranking", "Reordenamiento")
    }

    /// `Off — 1–2 s per search`, or `Apagado — 1–2 s por búsqueda`.
    pub fn rerank_off(&self) -> (r: &'static str)
        ensures
            r@ == in_lang(self.lang, "Off — 1–2 s per search"@, "Apagado — 1–2 s por búsqueda"@),
    {
        self.pick("Off — 1–2 s per search", "Apagado — 1–2 s por búsqueda")
    }

    /// `On — 180 s per search`, or `Encendido — 180 s por búsqueda`.
    pub fn rerank_on(&self) -> (r: &'static str)
        ensures
            r@ == in_lang(self.lang, "On — 180 s per search"@, "Encendido — 180 s por búsqueda"@),
    {
        self.pick("On — 180 s per search", "Encendido — 180 s por búsqueda")
    }

    /// `a cross-encoder reorders results the retriever mostly had right`, or `un cross-encoder reordena resultados que el buscador ya traía casi bien`.
    pub fn rerank_note(&self) -> (r: &'static str)
        ensures
            r@ == in_lang(self.lang, "a cross-encoder reorders results the retriever mostly had right"@, "un cross-encoder reordena resultados que el buscador ya traía casi bien"@),
    {
        self.pick("a cross-encoder reorders results the retriever mostly had right", "un cross-encoder reordena resultados que el buscador ya traía casi bien")
    }

    /// `Reranker model`, or `Modelo de reordenamiento`.
    pub fn rerank_model_question(&self) -> (r: &'static str)
        ensures
            r@ == in_lang(self.lang, "Reranker model"@, "Modelo de reordenamiento"@),
    {
        self.pick("Reranker model", "Modelo de reordenamiento")
    }

    /// `Candidates it sees (this is the cost)`, or `Candidatos que evalúa (ahí está el costo)`.
    pub fn rerank_pool_question(&self) -> (r: &'static str)
        ensures
            r@ == in_lang(self.lang, "Candidates it sees (this is the cost)"@, "Candidatos que evalúa (ahí está el costo)"@),
    {
        self.pick("Candidates it sees (this is the cost)", "Candidatos que evalúa (ahí está el costo)")
    }

    // summarization

    /// `── Summarization ──`, or `── Resumen ──`.
    pub fn summary_heading(&self) -> (r: &'static str)
        ensures
            r@ == in_lang(self.lang, "── Summarization ──"@, "── Resumen ──"@),
    {
        self.pick("── Summarization ──", "── Resumen ──")
    }

    /// `Summarizer`, or `Resumidor`.
    pub fn summarizer_question(&self) -> (r: &'static str)
        ensures
            r@ == in_lang(self.lang, "Summarizer"@, "Resumidor"@),
    {
        self.pick("Summarizer", "Resumidor")
    }

    /// `extractive — offline, free`, or `extractivo — offline, gratis`.
    pub fn summarizer_extractive(&self) -> (r: &'static str)
        ensures
            r@ == in_lang(self.lang, "extractive — offline, free"@, "extractivo — offline, gratis"@),
    {
        self.pick("extractive — offline, free", "extractivo — offline, gratis")
    }

    /// `ranks sentences with the embedding model`, or `ordena oraciones con el modelo de embeddings`.
    pub fn summarizer_extractive_note(&self) -> (r: &'static str)
        ensures
            r@ == in_lang(self.lang, "ranks sentences with the embedding model"@, "ordena oraciones con el modelo de embeddings"@),
    {
        self.pick("ranks sentences with the embedding model", "ordena oraciones con el modelo de embeddings")
    }

    /// `openai — sends the text away`, or `openai — manda el texto afuera`.
    pub fn summarizer_openai(&self) -> (r: &'static str)
        ensures
            r@ == in_lang(self.lang, "openai — sends the text away"@, "openai — manda el texto afuera"@),
    {
        self.pick("openai — sends the text away", "openai — manda el texto afuera")
    }

    /// `noop — truncates`, or `noop — trunca`.
    pub fn summarizer_noop(&self) -> (r: &'static str)
        ensures
            r@ == in_lang(self.lang, "noop — truncates"@, "noop — trunca"@),
    {
        self.pick("noop — truncates", "noop — trunca")
    }

    /// `Summary length in tokens`, or `Largo del resumen en tokens`.
    pub fn target_tokens_question(&self) -> (r: &'static str)
        ensures
            r@ == in_lang(self.lang, "Summary length in tokens"@, "Largo del resumen en tokens"@),
    {
        self.pick("Summary length in tokens", "Largo del resumen en tokens")
    }

    // offline

    /// `Downloading models`, or `Descarga de modelos`.
    pub fn offline_question(&self) -> (r: &'static str)
        ensures
            r@ == in_lang(self.lang, "Downloading models"@, "Descarga de modelos"@),
    {
        self.pick("Downloading models", "Descarga de modelos")
    }

    /// `Automatic`, or `Automática`.
    pub fn offline_auto(&self) -> (r: &'static str)
        ensures
            r@ == in_lang(self.lang, "Automatic"@, "Automática"@),
    {
        self.pick("Automatic", "Automática")
    }

    /// `Never — offline`, or `Nunca — offline`.
    pub fn offline_never(&self) -> (r: &'static str)
        ensures
            r@ == in_lang(self.lang, "Never — offline"@, "Nunca — offline"@),
    {
        self.pick("Never — offline", "Nunca — offline")
    }

    /// `Always allowed`, or `Siempre permitida`.
    pub fn offline_always(&self) -> (r: &'static str)
        ensures
            r@ == in_lang(self.lang, "Always allowed"@, "Siempre permitida"@),
    {
        self.pick("Always allowed", "Siempre permitida")
    }

    // confirmation

    /// `Write this configuration?`, or `¿Escribir esta configuración?`.
    pub fn write_question(&self) -> (r: &'static str)
        ensures
            r@ == in_lang(self.lang, "Write this configuration?"@, "¿Escribir esta configuración?"@),
    {
        self.pick("Write this configuration?", "¿Escribir esta configuración?")
    }

    /// `Yes`, or `Sí`.
    pub fn write_yes(&self) -> (r: &'static str)
        ensures
            r@ == in_lang(self.lang, "Yes"@, "Sí"@),
    {
        self.pick("Yes", "Sí")
    }

    /// `No, cancel`, or `No, cancelar`.
    pub fn write_no(&self) -> (r: &'static str)
        ensures
            r@ == in_lang(self.lang, "No, cancel"@, "No, cancelar"@),
    {
        self.pick("No, cancel", "No, cancelar")
    }

    /// `Nothing written.`, or `No se escribió nada.`.
    pub fn nothing_written(&self) -> (r: &'static str)
        ensures
            r@ == in_lang(self.lang, "Nothing written."@, "No se escribió nada."@),
    {
        self.pick("Nothing written.", "No se escribió nada.")
    }

    // summary labels

    /// `project `, or `proyecto`.
    pub fn label_project(&self) -> (r: &'static str)
        ensures
            r@ == in_lang(self.lang, "project "@, "proyecto"@),
    {
        self.pick("project ", "proyecto")
    }

    /// `group   `, or `grupo   `.
    pub fn label_group(&self) -> (r: &'static str)
        ensures
            r@ == in_lang(self.lang, "group   "@, "grupo   "@),
    {
        self.pick("group   ", "grupo   ")
    }

    /// `model   `, or `modelo  `.
    pub fn label_model(&self) -> (r: &'static str)
        ensures
            r@ == in_lang(self.lang, "model   "@, "modelo  "@),
    {
        self.pick("model   ", "modelo  ")
    }

    /// `index   `, or `índice  `.
    pub fn label_index(&self) -> (r: &'static str)
        ensures
            r@ == in_lang(self.lang, "index   "@, "índice  "@),
    {
        self.pick("index   ", "índice  ")
    }

    /// `keyword `, or `keyword `.
    pub fn label_keyword(&self) -> (r: &'static str)
        ensures
            r@ == in_lang(self.lang, "keyword "@, "keyword "@),
    {
        self.pick("keyword ", "keyword ")
    }

    /// `exclude `, or `excluir `.
    pub fn label_exclude(&self) -> (r: &'static str)
        ensures
            r@ == in_lang(self.lang, "exclude "@, "excluir "@),
    {
        self.pick("exclude ", "excluir ")
    }

    /// `rerank  `, or `reorden `.
    pub fn label_rerank(&self) -> (r: &'static str)
        ensures
            r@ == in_lang(self.lang, "rerank  "@, "reorden "@),
    {
        self.pick("rerank  ", "reorden ")
    }

    /// `summary `, or `resumen `.
    pub fn label_summary(&self) -> (r: &'static str)
        ensures
            r@ == in_lang(self.lang, "summary "@, "resumen "@),
    {
        self.pick("summary ", "resumen ")
    }

    /// `memories`, or `memorias`.
    pub fn label_memories(&self) -> (r: &'static str)
        ensures
            r@ == in_lang(self.lang, "memories"@, "memorias"@),
    {
        self.pick("memories", "memorias")
    }

    /// `none`, or `ninguno`.
    pub fn none(&self) -> (r: &'static str)
        ensures
            r@ == in_lang(self.lang, "none"@, "ninguno"@),
    {
        self.pick("none", "ninguno")
    }

    /// `on`, or `sí`.
    pub fn on(&self) -> (r: &'static str)
        ensures
            r@ == in_lang(self.lang, "on"@, "sí"@),
    {
        self.pick("on", "sí")
    }

    /// `off`, or `no`.
    pub fn off(&self) -> (r: &'static str)
        ensures
            r@ == in_lang(self.lang, "off"@, "no"@),
    {
        self.pick("off", "no")
    }

    /// `copied from`, or `copiada de`.
    pub fn copied_from(&self) -> (r: &'static str)
        ensures
            r@ == in_lang(self.lang, "copied from"@, "copiada de"@),
    {
        self.pick("copied from", "copiada de")
    }

    /// `→ memories shared with that product's repositories`, or `→ memorias compartidas con los repositorios de ese producto`.
    pub fn shared_with_group(&self) -> (r: &'static str)
        ensures
            r@ == in_lang(self.lang, "→ memories shared with that product's repositories"@, "→ memorias compartidas con los repositorios de ese producto"@),
    {
        self.pick("→ memories shared with that product's repositories", "→ memorias compartidas con los repositorios de ese producto")
    }

    /// `local → this repository · group → central store · global → central store`, or `local → este repositorio · grupo → store central · global → store central`.
    pub fn tiers_with_group(&self) -> (r: &'static str)
        ensures
            r@ == in_lang(self.lang, "local → this repository · group → central store · global → central store"@, "local → este repositorio · grupo → store central · global → store central"@),
    {
        self.pick("local → this repository · group → central store · global → central store", "local → este repositorio · grupo → store central · global → store central")
    }

    /// `local → this repository · global → central store`, or `local → este repositorio · global → store central`.
    pub fn tiers_without_group(&self) -> (r: &'static str)
        ensures
            r@ == in_lang(self.lang, "local → this repository · global → central store"@, "local → este repositorio · global → store central"@),
    {
        self.pick("local → this repository · global → central store", "local → este repositorio · global → store central")
    }
}

} // verus!
