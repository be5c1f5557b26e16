use vstd::prelude::*;

verus! {

/// The closed set of failures that the bridge reports. Each variant carries the
/// diagnostic text of the underlying cause, where there is one.
pub enum Error {
    /// The host's buffer is not valid UTF-16.
    InvalidUtf16OnInput(String),
    /// The store could not be reached at all.
    ServerNotAvailable,
    /// The store refused the connection, or closing it failed.
    DbConnection(String),
    /// One request's query failed at the store.
    SqlExecution(String),
    /// The asynchronous runtime could not be started.
    RuntimeCreation(String),
    /// A cell could not be read as its declared type.
    DbTypeConversion { err: String, column_type: String },
    /// A column's type has no conversion rule.
    DbTypeSupport(String),
    /// The response could not be turned into wire text.
    Serialization(String),
    /// The request batch is not valid JSON of the request schema.
    Deserialization(String),
    /// A defect inside the bridge.
    InternalLogic(String),
}

/// Mathematical model of an [`Error`].
pub enum ErrorModel {
    InvalidUtf16OnInput(Seq<char>),
    ServerNotAvailable,
    DbConnection(Seq<char>),
    SqlExecution(Seq<char>),
    RuntimeCreation(Seq<char>),
    DbTypeConversion { err: Seq<char>, column_type: Seq<char> },
    DbTypeSupport(Seq<char>),
    Serialization(Seq<char>),
    Deserialization(Seq<char>),
    InternalLogic(Seq<char>),
}

impl View for Error {
    type V = ErrorModel;

    open spec fn view(&self) -> ErrorModel {
        match self {
            Error::InvalidUtf16OnInput(d) => ErrorModel::InvalidUtf16OnInput(d@),
            Error::ServerNotAvailable => ErrorModel::ServerNotAvailable,
            Error::DbConnection(d) => ErrorModel::DbConnection(d@),
            Error::SqlExecution(d) => ErrorModel::SqlExecution(d@),
            Error::RuntimeCreation(d) => ErrorModel::RuntimeCreation(d@),
            Error::DbTypeConversion { err, column_type } => ErrorModel::DbTypeConversion {
                err: err@,
                column_type: column_type@,
            },
            Error::DbTypeSupport(t) => ErrorModel::DbTypeSupport(t@),
            Error::Serialization(d) => ErrorModel::Serialization(d@),
            Error::Deserialization(d) => ErrorModel::Deserialization(d@),
            Error::InternalLogic(d) => ErrorModel::InternalLogic(d@),
        }
    }
}

/// The stable code of each kind of failure. The first two digits number the
/// kind; the third says where it arose (1 inside the bridge, 2 from the input,
/// 3 at the store); the last says how much the user is shown (0 an abstract
/// description, 1 the description, 2 the description and technical detail).
pub open spec fn code_of(e: ErrorModel) -> Seq<char> {
    match e {
        ErrorModel::InvalidUtf16OnInput(_) => "0020"@,
        ErrorModel::ServerNotAvailable => "0131"@,
        ErrorModel::DbConnection(_) => "0132"@,
        ErrorModel::SqlExecution(_) => "0222"@,
        ErrorModel::DbTypeConversion { .. } => "0310"@,
        ErrorModel::DbTypeSupport(_) => "0431"@,
        ErrorModel::RuntimeCreation(_) => "0510"@,
        ErrorModel::Serialization(_) => "0610"@,
        ErrorModel::Deserialization(_) => "0720"@,
        ErrorModel::InternalLogic(_) => "0810"@,
    }
}

/// The fixed description shown to the user.
pub open spec fn descr_of(e: ErrorModel) -> Seq<char> {
    match e {
        ErrorModel::InvalidUtf16OnInput(_) => "Не удалось конвертировать запрос в UTF-16"@,
        ErrorModel::ServerNotAvailable => "Сервер недоступен"@,
        ErrorModel::DbConnection(_) => "Внешняя база данных отвергает подключение"@,
        ErrorModel::SqlExecution(_) => "Не удалось выполнить SQL-запрос"@,
        ErrorModel::DbTypeConversion { column_type, .. } => "Не удалось конвертировать тип базы данных '"@
            + column_type + "' в rust-тип"@,
        ErrorModel::DbTypeSupport(t) => "Тип столбца базы данных '"@ + t + "' не поддерживается"@,
        ErrorModel::RuntimeCreation(_) => "Не удалось создать рантайм Tokio"@,
        ErrorModel::Serialization(_) => "Не удалось сериализовать ответ БД в JSON-формат"@,
        ErrorModel::Deserialization(_) => "Не валидные аргументы переданы в dll"@,
        ErrorModel::InternalLogic(_) => "Логическая ошибка в dll"@,
    }
}

/// The technical detail surfaced with a failure, where its cause carries one.
pub open spec fn tech_descr_of(e: ErrorModel) -> Option<Seq<char>> {
    match e {
        ErrorModel::InvalidUtf16OnInput(d) => Some(d),
        ErrorModel::ServerNotAvailable => None,
        ErrorModel::DbConnection(d) => Some(d),
        ErrorModel::SqlExecution(d) => Some(d),
        ErrorModel::DbTypeConversion { err, .. } => Some(err),
        ErrorModel::DbTypeSupport(_) => None,
        ErrorModel::RuntimeCreation(d) => Some(d),
        ErrorModel::Serialization(d) => Some(d),
        ErrorModel::Deserialization(d) => Some(d),
        ErrorModel::InternalLogic(d) => Some(d),
    }
}

impl Error {
    pub fn code(&self) -> (r: &'static str)
        ensures
            r@ == code_of(self@),
    {
        match self {
            Error::InvalidUtf16OnInput(_) => "0020",
            Error::ServerNotAvailable => "0131",
            Error::DbConnection(_) => "0132",
            Error::SqlExecution(_) => "0222",
            Error::DbTypeConversion { .. } => "0310",
            Error::DbTypeSupport(_) => "0431",
            Error::RuntimeCreation(_) => "0510",
            Error::Serialization(_) => "0610",
            Error::Deserialization(_) => "0720",
            Error::InternalLogic(_) => "0810",
        }
    }

    /// The fixed description shown to the user.
    pub fn descr(&self) -> (r: String)
        ensures
            r@ == descr_of(self@),
    {
        match self {
            Error::InvalidUtf16OnInput(_) => String::from_str("Не удалось конвертировать запрос в UTF-16"),
            Error::ServerNotAvailable => String::from_str("Сервер недоступен"),
            Error::DbConnection(_) => String::from_str("Внешняя база данных отвергает подключение"),
            Error::SqlExecution(_) => String::from_str("Не удалось выполнить SQL-запрос"),
            Error::DbTypeConversion { column_type, .. } => {
                let mut s = String::from_str("Не удалось конвертировать тип базы данных '");
                s.append(column_type.as_str());
                s.append("' в rust-тип");
                s
            },
            Error::DbTypeSupport(t) => {
                let mut s = String::from_str("Тип столбца базы данных '");
                s.append(t.as_str());
                s.append("' не поддерживается");
                s
            },
            Error::RuntimeCreation(_) => String::from_str("Не удалось создать рантайм Tokio"),
            Error::Serialization(_) => String::from_str("Не удалось сериализовать ответ БД в JSON-формат"),
            Error::Deserialization(_) => String::from_str("Не валидные аргументы переданы в dll"),
            Error::InternalLogic(_) => String::from_str("Логическая ошибка в dll"),
        }
    }

    pub fn tech_descr(&self) -> (r: Option<&str>)
        ensures
            match r {
                Some(t) => tech_descr_of(self@) == Some(t@),
                None => tech_descr_of(self@) is None,
            },
    {
        match self {
            Error::InvalidUtf16OnInput(d) => Some(d.as_str()),
            Error::ServerNotAvailable => None,
            Error::DbConnection(d) => Some(d.as_str()),
            Error::SqlExecution(d) => Some(d.as_str()),
            Error::DbTypeConversion { err, .. } => Some(err.as_str()),
            Error::DbTypeSupport(_) => None,
            Error::RuntimeCreation(d) => Some(d.as_str()),
            Error::Serialization(d) => Some(d.as_str()),
            Error::Deserialization(d) => Some(d.as_str()),
            Error::InternalLogic(d) => Some(d.as_str()),
        }
    }
}

} // verus!
